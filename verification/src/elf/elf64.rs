//! The ELF64 object writer: builds the string, symbol and relocation
//! tables and the section headers of a relocatable object from the
//! tables of an assembly run, and lays them out as the bytes of the file.
//! It only reads those tables.

use crate::elf::constants::{
    EHDR_SIZE, PHDR_SIZE, RELA_SIZE, SHDR_SIZE, SHF_INFO_LINK, SHT_NULL, SHT_PROGBITS, SHT_RELA,
    SHT_STRTAB, SHT_SYMTAB, SYM_SIZE,
};
use crate::elf::constants::{
    R_X86_64_16, R_X86_64_32, R_X86_64_32S, R_X86_64_64, R_X86_64_8, R_X86_64_PC32, STB_GLOBAL,
    STB_LOCAL, STT_NOTYPE, STT_SECTION,
};
use crate::elf::image::{
    code_bytes, ehdr_bytes, object_bytes, rela_bytes, rela_list_bytes, rela_table_bytes,
    shdr_bytes, shdr_table_bytes, sym_bytes, symtab_bytes,
};
use crate::elf::tables::{
    add_relas, add_symbol, add_symbols, add_undefined, base_addend, empty_ehdr, kept_symbols,
    has_local_marker, lemma_add_relas_err, lemma_add_symbols_err, lemma_add_undefined_err,
    lemma_name_table_grows, name_table, null_header, pad16, parts_of, rela_entry, shstr_names,
    spec_is_local_label, spec_shstrtab, spec_symtab, spec_tables, symtab_null, undefined_names,
    undefined_row, Parts, RelaTables, SymTables, Tables,
};
use crate::elf::laws::{
    lemma_symbol_rows, lemma_undefined_rows, symbols_appended, undefined_appended,
};
use crate::encoder::{find_section, find_symbol, Context};
use crate::error::{AsmError, ErrorKind};
use crate::layout::push_le;
use crate::text::{append_bytes, find_name, string_views, to_uppercase};
use vstd::prelude::*;
use vstd::string::*;
use vstd::utf8::encode_utf8;

verus! {



/// The largest size, in bytes, that a string table may reach before its
/// padding; offsets into it then fit the 32-bit name fields.
pub const TABLE_LIMIT: usize = 0xffff_fff0;

/// [File header](https://en.wikipedia.org/wiki/Executable_and_Linkable_Format#File_header)
#[derive(Clone, Copy, Debug, PartialEq, Eq)]
pub struct Elf64Ehdr {
    pub e_ident: [u8; 16],
    pub e_type: u16,
    pub e_machine: u16,
    pub e_version: u32,
    pub e_entry: u64,
    pub e_phoff: u64,
    pub e_shoff: u64,
    pub e_flags: u32,
    pub e_ehsize: u16,
    pub e_phentsize: u16,
    pub e_phnum: u16,
    pub e_shentsize: u16,
    pub e_shnum: u16,
    pub e_shstrndx: u16,
}

/// A row of the symbol table.
#[derive(Clone, Copy, Debug, PartialEq, Eq)]
pub struct Elf64Sym {
    pub st_name: u32,
    pub st_info: u8,
    pub st_other: u8,
    pub st_shndx: u16,
    pub st_value: u64,
    pub st_size: u64,
}

/// [Section header](https://en.wikipedia.org/wiki/Executable_and_Linkable_Format#Section_header)
#[derive(Clone, Copy, Debug, PartialEq, Eq)]
pub struct Elf64Shdr {
    pub sh_name: u32,
    pub sh_type: u32,
    pub sh_flags: u64,
    pub sh_addr: u64,
    pub sh_offset: u64,
    pub sh_size: u64,
    pub sh_link: u32,
    pub sh_info: u32,
    pub sh_addralign: u64,
    pub sh_entsize: u64,
}

/// A relocation entry with addend.
#[derive(Clone, Copy, Debug, PartialEq, Eq)]
pub struct Elf64Rela {
    pub r_offset: u64,
    pub r_info: u64,
    pub r_addend: i64,
}

/// The object writer: the tables of the run it serialises and the
/// tables of the file it has built so far.
#[derive(Clone, Debug)]
pub struct Elf {
    /// flag to keep local labels: names that start with `.L`
    pub keep_locals: bool,
    /// The assembled program. No method changes it.
    pub ctx: Context,
    pub ehdr: Elf64Ehdr,
    /// The name of each row of `symtab`; a name's position is its symbol index.
    pub symtab_names: Vec<String>,
    /// used in the `.symtab` section header
    pub local_symbols_count: usize,
    /// symbols that relocations use and nothing defines
    pub rela_symbols: Vec<String>,
    pub strtab: Vec<u8>,
    pub symtab: Vec<Elf64Sym>,
    /// The section that each relocation section applies to.
    pub rela_targets: Vec<String>,
    /// The entries of each relocation section, in the order of `rela_targets`.
    pub rela: Vec<Vec<Elf64Rela>>,
    pub shstrtab: Vec<u8>,
    /// Offset in `shstrtab` of the name of each section, in the order in
    /// which the names stand there.
    pub section_name_offs: Vec<u32>,
    pub section_headers: Vec<Elf64Shdr>,
}

/// Whether a name in upper case starts with the local-label marker.
pub fn starts_with_local_marker(upper: &str) -> (r: bool)
    ensures
        r == has_local_marker(upper@),
{
    let n = upper.unicode_len();
    n >= 2 && upper.get_char(0) == '.' && upper.get_char(1) == 'L'
}

/// Whether a symbol name carries the local-label marker.
pub fn is_local_label(name: &String) -> (r: bool)
    ensures
        r == spec_is_local_label(name@),
{
    let upper = to_uppercase(name.as_str());
    starts_with_local_marker(upper.as_str())
}

/// The values of a list of relocation sections.
pub open spec fn entry_views(rela: Seq<Vec<Elf64Rela>>) -> Seq<Seq<Elf64Rela>> {
    rela.map_values(|v: Vec<Elf64Rela>| v@)
}

/// Appends the bytes of a section header.
fn push_shdr(out: &mut Vec<u8>, h: &Elf64Shdr)
    ensures
        final(out)@ == old(out)@ + shdr_bytes(*h),
{
    push_le(out, h.sh_name as u64, 4);
    push_le(out, h.sh_type as u64, 4);
    push_le(out, h.sh_flags, 8);
    push_le(out, h.sh_addr, 8);
    push_le(out, h.sh_offset, 8);
    push_le(out, h.sh_size, 8);
    push_le(out, h.sh_link as u64, 4);
    push_le(out, h.sh_info as u64, 4);
    push_le(out, h.sh_addralign, 8);
    push_le(out, h.sh_entsize, 8);
    assert(out@ =~= old(out)@ + shdr_bytes(*h));
}

/// Appends the bytes of a symbol-table row.
fn push_sym(out: &mut Vec<u8>, s: &Elf64Sym)
    ensures
        final(out)@ == old(out)@ + sym_bytes(*s),
{
    push_le(out, s.st_name as u64, 4);
    out.push(s.st_info);
    out.push(s.st_other);
    push_le(out, s.st_shndx as u64, 2);
    push_le(out, s.st_value, 8);
    push_le(out, s.st_size, 8);
    assert(out@ =~= old(out)@ + sym_bytes(*s));
}

/// Appends the bytes of a relocation entry.
fn push_rela(out: &mut Vec<u8>, r: &Elf64Rela)
    ensures
        final(out)@ == old(out)@ + rela_bytes(*r),
{
    push_le(out, r.r_offset, 8);
    push_le(out, r.r_info, 8);
    let addend: u64 = if r.r_addend >= 0 {
        r.r_addend as u64
    } else {
        u64::MAX - ((-(r.r_addend + 1)) as u64)
    };
    push_le(out, addend, 8);
    assert(out@ =~= old(out)@ + rela_bytes(*r));
}

/// Appends the bytes of a file header.
fn push_ehdr(out: &mut Vec<u8>, h: &Elf64Ehdr)
    ensures
        final(out)@ == old(out)@ + ehdr_bytes(*h),
{
    let mut i: usize = 0;
    while i < 16
        invariant
            i <= 16,
            out@ == old(out)@ + h.e_ident@.subrange(0, i as int),
        decreases 16 - i,
    {
        out.push(h.e_ident[i]);
        i = i + 1;
    }
    assert(h.e_ident@.subrange(0, 16) =~= h.e_ident@);
    push_le(out, h.e_type as u64, 2);
    push_le(out, h.e_machine as u64, 2);
    push_le(out, h.e_version as u64, 4);
    push_le(out, h.e_entry, 8);
    push_le(out, h.e_phoff, 8);
    push_le(out, h.e_shoff, 8);
    push_le(out, h.e_flags as u64, 4);
    push_le(out, h.e_ehsize as u64, 2);
    push_le(out, h.e_phentsize as u64, 2);
    push_le(out, h.e_phnum as u64, 2);
    push_le(out, h.e_shentsize as u64, 2);
    push_le(out, h.e_shnum as u64, 2);
    push_le(out, h.e_shstrndx as u64, 2);
    assert(out@ =~= old(out)@ + ehdr_bytes(*h));
}

/// Appends `n` zero bytes.
fn push_zeros(out: &mut Vec<u8>, n: usize)
    ensures
        final(out)@ == old(out)@ + Seq::new(n as nat, |i: int| 0u8),
{
    let mut i: usize = 0;
    while i < n
        invariant
            i <= n,
            out@ == old(out)@ + Seq::new(i as nat, |j: int| 0u8),
        decreases n - i,
    {
        out.push(0u8);
        i = i + 1;
    }
}

/// Pads a table with zero bytes to the next multiple of 16.
fn add_padding(code: &mut Vec<u8>)
    requires
        old(code)@.len() <= TABLE_LIMIT,
    ensures
        final(code)@ == pad16(old(code)@),
{
    proof {
        crate::layout::lemma_align_to(code@.len(), 16);
    }
    let padding = crate::layout::align_to(code.len(), 16) - code.len();
    push_zeros(code, padding);
}

/// Appends one name to a section-name string table and records where it
/// starts.
fn add_section_name(
    shstrtab: &mut Vec<u8>,
    offs: &mut Vec<u32>,
    name: &str,
    Ghost(names): Ghost<Seq<Seq<char>>>,
) -> (ok: bool)
    requires
        old(offs)@.len() < names.len(),
        names[old(offs)@.len() as int] == name@,
        old(shstrtab)@ == name_table(names, old(offs)@.len() as int),
        old(shstrtab)@.len() <= TABLE_LIMIT,
    ensures
        final(shstrtab)@ == name_table(names, old(offs)@.len() as int + 1),
        ok == (final(shstrtab)@.len() <= TABLE_LIMIT),
        ok ==> final(offs)@ == old(offs)@.push(old(shstrtab)@.len() as u32),
{
    let off = shstrtab.len();
    append_bytes(shstrtab, name.as_bytes());
    shstrtab.push(0x00);
    if shstrtab.len() > TABLE_LIMIT {
        return false;
    }
    offs.push(off as u32);
    true
}

impl Elf {
    /// The symbol table as built so far.
    pub open spec fn sym_tables(&self) -> SymTables {
        SymTables {
            names: string_views(self.symtab_names@),
            rows: self.symtab@,
            strtab: self.strtab@,
            locals: self.local_symbols_count as int,
        }
    }

    /// Whether two writers differ in nothing but the symbol and string tables.
    pub open spec fn same_but_symtab(&self, other: &Elf) -> bool {
        &&& self.keep_locals == other.keep_locals
        &&& self.ctx == other.ctx
        &&& self.ehdr == other.ehdr
        &&& self.rela_symbols == other.rela_symbols
        &&& self.rela_targets == other.rela_targets
        &&& self.rela == other.rela
        &&& self.shstrtab == other.shstrtab
        &&& self.section_name_offs == other.section_name_offs
        &&& self.section_headers == other.section_headers
    }

    /// A writer for the program `ctx`, with every table of the file still empty.
    pub fn new(ctx: Context, keep_locals: bool) -> (e: Elf)
        ensures
            e.keep_locals == keep_locals,
            e.ctx == ctx,
            e.ehdr == empty_ehdr(),
            e.symtab_names@.len() == 0,
            e.local_symbols_count == 0,
            e.rela_symbols@.len() == 0,
            e.strtab@.len() == 0,
            e.symtab@.len() == 0,
            e.rela_targets@.len() == 0,
            e.rela@.len() == 0,
            e.shstrtab@.len() == 0,
            e.section_name_offs@.len() == 0,
            e.section_headers@.len() == 0,
    {
        Elf {
            keep_locals,
            ctx,
            ehdr: Elf64Ehdr {
                e_ident: [0u8, 0u8, 0u8, 0u8, 0u8, 0u8, 0u8, 0u8, 0u8, 0u8, 0u8, 0u8, 0u8, 0u8, 0u8, 0u8],
                e_type: 0,
                e_machine: 0,
                e_version: 0,
                e_entry: 0,
                e_phoff: 0,
                e_shoff: 0,
                e_flags: 0,
                e_ehsize: 0,
                e_phentsize: 0,
                e_phnum: 0,
                e_shentsize: 0,
                e_shnum: 0,
                e_shstrndx: 0,
            },
            symtab_names: Vec::new(),
            local_symbols_count: 0,
            rela_symbols: Vec::new(),
            strtab: Vec::new(),
            symtab: Vec::new(),
            rela_targets: Vec::new(),
            rela: Vec::new(),
            shstrtab: Vec::new(),
            section_name_offs: Vec::new(),
            section_headers: Vec::new(),
        }
    }

    /// Whether two writers differ in nothing but the list of undefined names.
    pub open spec fn same_but_rela_symbols(&self, other: &Elf) -> bool {
        &&& self.same_but_symtab(other)
        &&& self.symtab_names == other.symtab_names
        &&& self.local_symbols_count == other.local_symbols_count
        &&& self.strtab == other.strtab
        &&& self.symtab == other.symtab
    }

    /// Collects the names that relocations use and the symbol table does
    /// not define: each once, in order of first use. They get synthesized
    /// rows in the symbol table.
    pub fn collect_rela_symbols(&mut self)
        ensures
            final(self).ctx == old(self).ctx,
            final(self).keep_locals == old(self).keep_locals,
            final(self).ehdr == old(self).ehdr,
            final(self).symtab_names == old(self).symtab_names,
            final(self).local_symbols_count == old(self).local_symbols_count,
            final(self).strtab == old(self).strtab,
            final(self).symtab == old(self).symtab,
            final(self).rela_targets == old(self).rela_targets,
            final(self).rela == old(self).rela,
            final(self).shstrtab == old(self).shstrtab,
            final(self).section_name_offs == old(self).section_name_offs,
            final(self).section_headers == old(self).section_headers,
            string_views(final(self).rela_symbols@) == undefined_names(
                old(self).ctx@,
                old(self).ctx.relas@.len() as int,
            ),
    {
        self.rela_symbols = Vec::new();
        let ghost c = self.ctx@;
        let n = self.ctx.relas.len();
        let mut i: usize = 0;
        assert(string_views(self.rela_symbols@) =~= undefined_names(c, 0));
        while i < n
            invariant
                i <= n,
                n == self.ctx.relas@.len(),
                c == self.ctx@,
                self.ctx == old(self).ctx,
                self.keep_locals == old(self).keep_locals,
                self.ehdr == old(self).ehdr,
                self.symtab_names == old(self).symtab_names,
                self.local_symbols_count == old(self).local_symbols_count,
                self.strtab == old(self).strtab,
                self.symtab == old(self).symtab,
                self.rela_targets == old(self).rela_targets,
                self.rela == old(self).rela,
                self.shstrtab == old(self).shstrtab,
                self.section_name_offs == old(self).section_name_offs,
                self.section_headers == old(self).section_headers,
                string_views(self.rela_symbols@) == undefined_names(c, i as int),
            decreases n - i,
        {
            assert(c.relas[i as int].uses == self.ctx.relas@[i as int].uses@);
            let listed = find_name(&self.rela_symbols, &self.ctx.relas[i].uses).is_some();
            if !listed && find_symbol(&self.ctx.symbols, &self.ctx.relas[i].uses).is_none() {
                let ghost before = string_views(self.rela_symbols@);
                self.rela_symbols.push(self.ctx.relas[i].uses.clone());
                assert(string_views(self.rela_symbols@) =~= before.push(c.relas[i as int].uses));
            }
            i = i + 1;
        }
    }

    /// Appends one synthesized row for each undefined name, in the
    /// order of the names: global binding, no type, no section, value
    /// and size zero. Each name goes to the end of the string table,
    /// and its row tells where. The rows before stay, and so does the
    /// count of local rows. It fails when the string table grows above
    /// `TABLE_LIMIT`.
    pub fn elf_rela_symbol(&mut self) -> (r: Result<(), AsmError>)
        requires
            old(self).local_symbols_count <= old(self).symtab@.len(),
            old(self).strtab@.len() <= TABLE_LIMIT,
        ensures
            final(self).same_but_symtab(old(self)),
            match add_undefined(
                Ok(old(self).sym_tables()),
                string_views(old(self).rela_symbols@),
                old(self).rela_symbols@.len() as int,
            ) {
                Ok(t) => r is Ok && final(self).sym_tables() == t
                    && final(self).local_symbols_count <= final(self).symtab@.len()
                    && final(self).strtab@.len() <= TABLE_LIMIT && undefined_appended(
                    old(self).sym_tables(),
                    t,
                    string_views(old(self).rela_symbols@),
                    old(self).rela_symbols@.len() as int,
                ) && final(self).local_symbols_count == old(self).local_symbols_count,
                Err(e) => r == Err::<(), AsmError>(AsmError { kind: e, loc: None }),
            },
    {
        proof {
            lemma_undefined_rows(
                self.sym_tables(),
                string_views(self.rela_symbols@),
                self.rela_symbols@.len() as int,
            );
        }
        let ghost start = Ok::<SymTables, ErrorKind>(self.sym_tables());
        let ghost undefined = string_views(self.rela_symbols@);
        let n = self.rela_symbols.len();
        let mut i: usize = 0;
        while i < n
            invariant
                i <= n,
                n == self.rela_symbols@.len(),
                undefined == string_views(self.rela_symbols@),
                start == Ok::<SymTables, ErrorKind>(old(self).sym_tables()),
                self.same_but_symtab(old(self)),
                self.local_symbols_count <= self.symtab@.len(),
                self.strtab@.len() <= TABLE_LIMIT,
                add_undefined(start, undefined, i as int) == Ok::<SymTables, ErrorKind>(
                    self.sym_tables(),
                ),
            decreases n - i,
        {
            let ghost before = self.sym_tables();
            let name_off = self.strtab.len();
            self.symtab.push(
                Elf64Sym {
                    st_name: name_off as u32,
                    st_info: STB_GLOBAL * 16 + STT_NOTYPE % 16,
                    st_other: 0,
                    st_shndx: 0,
                    st_value: 0,
                    st_size: 0,
                },
            );
            self.symtab_names.push(self.rela_symbols[i].clone());
            append_bytes(&mut self.strtab, self.rela_symbols[i].as_str().as_bytes());
            self.strtab.push(0u8);
            assert(self.sym_tables().names =~= before.names.push(undefined[i as int]));
            assert(self.sym_tables().strtab =~= before.strtab + encode_utf8(undefined[i as int])
                + seq![0u8]);
            assert(self.sym_tables() == SymTables {
                names: before.names.push(undefined[i as int]),
                rows: before.rows.push(undefined_row(before.strtab.len() as int)),
                strtab: before.strtab + encode_utf8(undefined[i as int]) + seq![0u8],
                locals: before.locals,
            });
            if self.strtab.len() > TABLE_LIMIT {
                proof {
                    lemma_add_undefined_err(start, undefined, i + 1, n as int);
                }
                return Err(AsmError::new(ErrorKind::TooLarge));
            }
            i = i + 1;
        }
        Ok(())
    }

    /// Builds `.symtab` and `.strtab`: the null symbol, then the local
    /// symbols (local labels only if they are kept), then a synthesized
    /// row for each undefined name, then the global symbols. The string
    /// table holds the names in the same order, each closed by a zero byte,
    /// and is padded to a multiple of 16 bytes.
    pub fn build_symtab_strtab(&mut self) -> (r: Result<(), AsmError>)
        ensures
            final(self).same_but_symtab(old(self)),
            match spec_symtab(
                old(self).ctx@,
                old(self).keep_locals,
                string_views(old(self).rela_symbols@),
            ) {
                Ok(t) => r is Ok && final(self).sym_tables() == t,
                Err(e) => r == Err::<(), AsmError>(AsmError { kind: e, loc: None }),
            },
    {
        // null symbol
        self.strtab = Vec::new();
        self.strtab.push(0x00);
        self.symtab = Vec::new();
        self.symtab.push(
            Elf64Sym {
                st_name: 0,
                st_info: STB_LOCAL * 16 + STT_NOTYPE % 16,
                st_other: 0,
                st_shndx: 0,
                st_value: 0,
                st_size: 0,
            },
        );
        self.symtab_names = Vec::new();
        self.symtab_names.push(String::new());
        self.local_symbols_count = 1;
        assert(self.sym_tables().names =~= symtab_null().names);
        assert(self.sym_tables().rows =~= symtab_null().rows);
        assert(self.sym_tables().strtab =~= symtab_null().strtab);

        match self.elf_symbol(STB_LOCAL) {
            Err(e) => {
                proof {
                    let c = old(self).ctx@;
                    let u = string_views(old(self).rela_symbols@);
                    let t1 = add_symbols(
                        Ok(symtab_null()),
                        c,
                        STB_LOCAL,
                        self.keep_locals,
                        c.symbols.len() as int,
                    );
                    lemma_add_undefined_err(t1, u, 0, u.len() as int);
                    lemma_add_symbols_err(
                        add_undefined(t1, u, u.len() as int),
                        c,
                        STB_GLOBAL,
                        self.keep_locals,
                        0,
                        c.symbols.len() as int,
                    );
                }
                return Err(e);
            },
            Ok(()) => {},
        }
        match self.elf_rela_symbol() {
            Err(e) => {
                proof {
                    let c = old(self).ctx@;
                    let u = string_views(old(self).rela_symbols@);
                    let t1 = add_symbols(
                        Ok(symtab_null()),
                        c,
                        STB_LOCAL,
                        self.keep_locals,
                        c.symbols.len() as int,
                    );
                    lemma_add_symbols_err(
                        add_undefined(t1, u, u.len() as int),
                        c,
                        STB_GLOBAL,
                        self.keep_locals,
                        0,
                        c.symbols.len() as int,
                    );
                }
                return Err(e);
            },
            Ok(()) => {},
        }
        match self.elf_symbol(STB_GLOBAL) {
            Err(e) => {
                return Err(e);
            },
            Ok(()) => {},
        }
        add_padding(&mut self.strtab);
        Ok(())
    }

    /// The relocation sections as built so far.
    pub open spec fn rela_tables(&self) -> RelaTables {
        RelaTables { targets: string_views(self.rela_targets@), entries: entry_views(self.rela@) }
    }

    /// Whether two writers differ in nothing but the relocation sections.
    pub open spec fn same_but_rela(&self, other: &Elf) -> bool {
        &&& self.keep_locals == other.keep_locals
        &&& self.ctx == other.ctx
        &&& self.ehdr == other.ehdr
        &&& self.symtab_names == other.symtab_names
        &&& self.local_symbols_count == other.local_symbols_count
        &&& self.rela_symbols == other.rela_symbols
        &&& self.strtab == other.strtab
        &&& self.symtab == other.symtab
        &&& self.shstrtab == other.shstrtab
        &&& self.section_name_offs == other.section_name_offs
        &&& self.section_headers == other.section_headers
    }

    /// The entry for relocation `i`, or the reason why it has none.
    fn rela_entry_of(&self, i: usize) -> (r: Result<Elf64Rela, ErrorKind>)
        requires
            i < self.ctx.relas@.len(),
        ensures
            r == rela_entry(self.ctx@, string_views(self.symtab_names@), self.ctx@.relas[i as int]),
    {
        let r = &self.ctx.relas[i];
        let ghost rv = self.ctx@.relas[i as int];
        assert(rv == r@);
        let base: i128 = if r.rtype == R_X86_64_32S || r.rtype == R_X86_64_32 || r.rtype
            == R_X86_64_64 || r.rtype == R_X86_64_16 || r.rtype == R_X86_64_8 {
            0
        } else if r.rtype == R_X86_64_PC32 {
            r.offset as i128 - r.instr.code.len() as i128
        } else {
            -4
        };
        assert(base == base_addend(rv));
        let found = match find_name(&self.symtab_names, &r.uses) {
            Some(row) => (Some(row), base),
            None => match find_symbol(&self.ctx.symbols, &r.uses) {
                Some(k) => {
                    assert(self.ctx@.symbols[k as int] == self.ctx.symbols@[k as int]@);
                    (
                        find_name(&self.symtab_names, &self.ctx.symbols[k].section),
                        base + self.ctx.symbols[k].addr as i128,
                    )
                },
                None => (None, base),
            },
        };
        match found.0 {
            None => Err(ErrorKind::InconsistentSymbol),
            Some(index) => {
                let r_offset: u128 = r.instr.addr as u128 + r.offset as u128;
                let r_addend: i128 = found.1 + r.adjust as i128;
                if index > 0xffff_ffff || r.rtype > 0xffff_ffff || r_offset > u64::MAX as u128
                    || r_addend < i64::MIN as i128 || r_addend > i64::MAX as i128 {
                    Err(ErrorKind::TooLarge)
                } else {
                    Ok(
                        Elf64Rela {
                            r_offset: r_offset as u64,
                            r_info: index as u64 * 0x1_0000_0000 + r.rtype,
                            r_addend: r_addend as i64,
                        },
                    )
                }
            },
        }
    }

    /// Builds the relocation sections: one entry for every relocation
    /// that is not marked resolved, in the section `.rela<section>` of the
    /// section its instruction stands in. An entry's symbol index is the
    /// symbol-table row that carries the referenced name. Only a name
    /// without a row, a local label that was left out of the table, is
    /// referred to through the row of its section, with the label's
    /// address in the addend. Sections come in the order in which their
    /// first relocation comes.
    pub fn rela_text_users(&mut self) -> (r: Result<(), AsmError>)
        ensures
            final(self).same_but_rela(old(self)),
            match add_relas(
                old(self).ctx@,
                string_views(old(self).symtab_names@),
                old(self).ctx.relas@.len() as int,
            ) {
                Ok(t) => r is Ok && final(self).rela_tables() == t,
                Err(e) => r == Err::<(), AsmError>(AsmError { kind: e, loc: None }),
            },
    {
        self.rela_targets = Vec::new();
        self.rela = Vec::new();
        let ghost c = self.ctx@;
        let ghost names = string_views(self.symtab_names@);
        let n = self.ctx.relas.len();
        let mut i: usize = 0;
        assert(self.rela_tables().targets =~= Seq::<Seq<char>>::empty());
        assert(self.rela_tables().entries =~= Seq::<Seq<Elf64Rela>>::empty());
        while i < n
            invariant
                i <= n,
                n == self.ctx.relas@.len(),
                c == self.ctx@,
                names == string_views(self.symtab_names@),
                self.same_but_rela(old(self)),
                self.rela_targets@.len() == self.rela@.len(),
                add_relas(c, names, i as int) == Ok::<RelaTables, ErrorKind>(self.rela_tables()),
            decreases n - i,
        {
            let ghost before = self.rela_tables();
            assert(c.relas[i as int] == self.ctx.relas@[i as int]@);
            if !self.ctx.relas[i].is_already_resolved {
                match self.rela_entry_of(i) {
                    Err(e) => {
                        proof {
                            lemma_add_relas_err(c, names, i + 1, n as int);
                        }
                        return Err(AsmError::new(e));
                    },
                    Ok(entry) => {
                        match find_name(&self.rela_targets, &self.ctx.relas[i].instr.section) {
                            Some(k) => {
                                self.rela[k].push(entry);
                                assert(self.rela_tables().entries =~= before.entries.update(
                                    k as int,
                                    before.entries[k as int].push(entry),
                                ));
                            },
                            None => {
                                self.rela_targets.push(self.ctx.relas[i].instr.section.clone());
                                let mut list: Vec<Elf64Rela> = Vec::new();
                                list.push(entry);
                                self.rela.push(list);
                                assert(self.rela_tables().targets =~= before.targets.push(
                                    c.relas[i as int].instr.section,
                                ));
                                assert(self.rela_tables().entries =~= before.entries.push(
                                    seq![entry],
                                ));
                            },
                        }
                    },
                }
            }
            i = i + 1;
        }
        Ok(())
    }

    /// Whether two writers differ in nothing but the section-name string
    /// table and the name offsets.
    pub open spec fn same_but_shstrtab(&self, other: &Elf) -> bool {
        &&& self.keep_locals == other.keep_locals
        &&& self.ctx == other.ctx
        &&& self.ehdr == other.ehdr
        &&& self.symtab_names == other.symtab_names
        &&& self.local_symbols_count == other.local_symbols_count
        &&& self.rela_symbols == other.rela_symbols
        &&& self.strtab == other.strtab
        &&& self.symtab == other.symtab
        &&& self.rela_targets == other.rela_targets
        &&& self.rela == other.rela
        &&& self.section_headers == other.section_headers
    }

    /// Builds `.shstrtab`: a zero byte, then the names of the program's
    /// sections in declaration order, of `.strtab`, `.symtab` and
    /// `.shstrtab`, and of the relocation sections, each closed by a zero
    /// byte; then padding to a multiple of 16 bytes. The offset of each
    /// name is recorded for the section headers.
    pub fn build_shstrtab(&mut self) -> (r: Result<(), AsmError>)
        ensures
            final(self).same_but_shstrtab(old(self)),
            match spec_shstrtab(old(self).ctx@, string_views(old(self).rela_targets@)) {
                Ok(t) => r is Ok && final(self).shstrtab@ == t.0 && final(self).section_name_offs@
                    == t.1,
                Err(e) => r == Err::<(), AsmError>(AsmError { kind: e, loc: None }),
            },
    {
        let ghost c = self.ctx@;
        let ghost targets = string_views(self.rela_targets@);
        let ghost names = shstr_names(c, targets);
        let n = self.ctx.sections.len();
        let m = self.rela_targets.len();
        // null
        self.shstrtab = Vec::new();
        self.shstrtab.push(0x00);
        self.section_name_offs = Vec::new();
        assert(self.shstrtab@ =~= name_table(names, 0));

        // custom sections
        let mut i: usize = 0;
        while i < n
            invariant
                i <= n,
                n == self.ctx.sections@.len(),
                m == self.rela_targets@.len(),
                c == self.ctx@,
                targets == string_views(self.rela_targets@),
                names == shstr_names(c, targets),
                names.len() == n + 3 + m,
                self.same_but_shstrtab(old(self)),
                self.section_name_offs@.len() == i,
                self.shstrtab@ == name_table(names, i as int),
                self.shstrtab@.len() <= TABLE_LIMIT,
                forall|k: int| 0 <= k < i ==> self.section_name_offs@[k] == name_table(
                    names,
                    k,
                ).len() as u32,
            decreases n - i,
        {
            assert(names[i as int] == self.ctx.sections@[i as int].name@);
            if !add_section_name(
                &mut self.shstrtab,
                &mut self.section_name_offs,
                self.ctx.sections[i].name.as_str(),
                Ghost(names),
            ) {
                proof {
                    lemma_name_table_grows(names, i + 1, names.len() as int);
                }
                return Err(AsmError::new(ErrorKind::TooLarge));
            }
            i = i + 1;
        }

        assert(names[n as int] == ".strtab"@);
        if !add_section_name(&mut self.shstrtab, &mut self.section_name_offs, ".strtab", Ghost(names)) {
            proof {
                lemma_name_table_grows(names, n + 1, names.len() as int);
            }
            return Err(AsmError::new(ErrorKind::TooLarge));
        }
        assert(names[n + 1] == ".symtab"@);
        if !add_section_name(&mut self.shstrtab, &mut self.section_name_offs, ".symtab", Ghost(names)) {
            proof {
                lemma_name_table_grows(names, n + 2, names.len() as int);
            }
            return Err(AsmError::new(ErrorKind::TooLarge));
        }
        assert(names[n + 2] == ".shstrtab"@);
        if !add_section_name(&mut self.shstrtab, &mut self.section_name_offs, ".shstrtab", Ghost(names)) {
            proof {
                lemma_name_table_grows(names, n + 3, names.len() as int);
            }
            return Err(AsmError::new(ErrorKind::TooLarge));
        }

        let mut j: usize = 0;
        while j < m
            invariant
                j <= m,
                n == self.ctx.sections@.len(),
                m == self.rela_targets@.len(),
                c == self.ctx@,
                targets == string_views(self.rela_targets@),
                names == shstr_names(c, targets),
                names.len() == n + 3 + m,
                self.same_but_shstrtab(old(self)),
                self.section_name_offs@.len() == n + 3 + j,
                self.shstrtab@ == name_table(names, n + 3 + j),
                self.shstrtab@.len() <= TABLE_LIMIT,
                forall|k: int| 0 <= k < n + 3 + j ==> self.section_name_offs@[k] == name_table(
                    names,
                    k,
                ).len() as u32,
            decreases m - j,
        {
            let mut name = String::from_str(".rela");
            name.append(self.rela_targets[j].as_str());
            assert(names[n + 3 + j] == name@);
            if !add_section_name(
                &mut self.shstrtab,
                &mut self.section_name_offs,
                name.as_str(),
                Ghost(names),
            ) {
                proof {
                    lemma_name_table_grows(names, n + 3 + j + 1, names.len() as int);
                }
                return Err(AsmError::new(ErrorKind::TooLarge));
            }
            j = j + 1;
        }
        assert(self.section_name_offs@ =~= Seq::new(
            names.len(),
            |k: int| name_table(names, k).len() as u32,
        ));
        add_padding(&mut self.shstrtab);
        Ok(())
    }

    /// What the section headers are computed from.
    pub open spec fn parts(&self) -> Parts {
        Parts {
            sections: self.ctx@.sections,
            strtab_len: self.strtab@.len() as int,
            rows: self.symtab@.len() as int,
            locals: self.local_symbols_count as int,
            targets: string_views(self.rela_targets@),
            rela_lens: self.rela@.map_values(|v: Vec<Elf64Rela>| v@.len() as int),
            shstrtab_len: self.shstrtab@.len() as int,
            name_offs: self.section_name_offs@,
        }
    }

    /// Whether two writers differ in nothing but the headers.
    pub open spec fn same_but_headers(&self, other: &Elf) -> bool {
        &&& self.keep_locals == other.keep_locals
        &&& self.ctx == other.ctx
        &&& self.symtab_names == other.symtab_names
        &&& self.local_symbols_count == other.local_symbols_count
        &&& self.rela_symbols == other.rela_symbols
        &&& self.strtab == other.strtab
        &&& self.symtab == other.symtab
        &&& self.rela_targets == other.rela_targets
        &&& self.rela == other.rela
        &&& self.shstrtab == other.shstrtab
        &&& self.section_name_offs == other.section_name_offs
    }

    /// Builds the section header table and the file header. The headers
    /// are: the null header; one `PROGBITS` header for each section of the
    /// program, in declaration order; `.strtab`; `.symtab`, which links to
    /// `.strtab` and gives the number of local symbols; one `RELA` header
    /// for each relocation section, which links to `.symtab` and names the
    /// section it applies to; `.shstrtab`. Contents follow the file header
    /// in the same order without gaps, and the header table follows them.
    pub fn build_headers(&mut self) -> (r: Result<(), AsmError>)
        ensures
            final(self).same_but_headers(old(self)),
            match old(self).parts().headers() {
                Ok(t) => r is Ok && final(self).section_headers@ == t.0 && final(self).ehdr == t.1,
                Err(e) => r == Err::<(), AsmError>(AsmError { kind: e, loc: None }),
            },
    {
        let ghost p = self.parts();
        let n = self.ctx.sections.len();
        let m = self.rela_targets.len();
        let count: u128 = n as u128 + m as u128 + 3;
        if self.section_name_offs.len() as u128 != count || self.rela.len() != m {
            return Err(AsmError::new(ErrorKind::InconsistentSymbol));
        }
        assert(p.rela_lens.len() == self.rela@.len());
        assert(p.targets.len() == m);
        assert(p.sections.len() == n);
        if count + 1 > 0xffff || self.local_symbols_count > 0xffff_ffff {
            return Err(AsmError::new(ErrorKind::TooLarge));
        }
        // null section
        self.section_headers = Vec::new();
        self.section_headers.push(
            Elf64Shdr {
                sh_name: 0,
                sh_type: SHT_NULL,
                sh_flags: 0,
                sh_addr: 0,
                sh_offset: 0,
                sh_size: 0,
                sh_link: 0,
                sh_info: 0,
                sh_addralign: 0,
                sh_entsize: 0,
            },
        );
        assert(self.section_headers@ =~= seq![null_header()]);
        let mut section_offs: u64 = EHDR_SIZE as u64;

        // user-defined sections
        let mut k: usize = 0;
        while k < n
            invariant
                k <= n,
                n == self.ctx.sections@.len(),
                m == self.rela_targets@.len(),
                p == self.parts(),
                p.count() == n + m + 3,
                p.count() + 1 <= 0xffff,
                p.locals <= 0xffff_ffff,
                p.name_offs.len() == p.count(),
                p.sections.len() == n,
                p.targets.len() == m,
                p.rela_lens.len() == m,
                p == old(self).parts(),
                self.same_but_headers(old(self)),
                section_offs == p.offset(k as int),
                self.section_headers@.len() == k + 1,
                p.headers_upto(k as int) == Ok::<Seq<Elf64Shdr>, ErrorKind>(self.section_headers@),
            decreases n - k,
        {
            assert(p.sections[k as int] == self.ctx.sections@[k as int]@);
            let size = self.ctx.sections[k].code.len();
            let end: u128 = section_offs as u128 + size as u128;
            if end > u64::MAX as u128 {
                proof {
                    p.lemma_headers_err(k + 1, p.count());
                }
                return Err(AsmError::new(ErrorKind::TooLarge));
            }
            self.section_headers.push(
                Elf64Shdr {
                    sh_name: self.section_name_offs[k],
                    sh_type: SHT_PROGBITS,
                    sh_flags: self.ctx.sections[k].flags,
                    sh_addr: 0,
                    sh_offset: section_offs,
                    sh_size: size as u64,
                    sh_link: 0,
                    sh_info: 0,
                    sh_addralign: 1,
                    sh_entsize: 0,
                },
            );
            section_offs = end as u64;
            k = k + 1;
        }

        // .strtab
        let end: u128 = section_offs as u128 + self.strtab.len() as u128;
        if end > u64::MAX as u128 {
            proof {
                p.lemma_headers_err(n + 1, p.count());
            }
            return Err(AsmError::new(ErrorKind::TooLarge));
        }
        self.section_headers.push(
            Elf64Shdr {
                sh_name: self.section_name_offs[n],
                sh_type: SHT_STRTAB,
                sh_flags: 0,
                sh_addr: 0,
                sh_offset: section_offs,
                sh_size: self.strtab.len() as u64,
                sh_link: 0,
                sh_info: 0,
                sh_addralign: 1,
                sh_entsize: 0,
            },
        );
        section_offs = end as u64;
        assert(p.headers_upto(n + 1) == Ok::<Seq<Elf64Shdr>, ErrorKind>(self.section_headers@));

        // .symtab
        let symtab_size: u128 = SYM_SIZE as u128 * self.symtab.len() as u128;
        let end: u128 = section_offs as u128 + symtab_size;
        if end > u64::MAX as u128 {
            proof {
                p.lemma_headers_err(n + 2, p.count());
            }
            return Err(AsmError::new(ErrorKind::TooLarge));
        }
        self.section_headers.push(
            Elf64Shdr {
                sh_name: self.section_name_offs[n + 1],
                sh_type: SHT_SYMTAB,
                sh_flags: 0,
                sh_addr: 0,
                sh_offset: section_offs,
                sh_size: symtab_size as u64,
                sh_link: (n + 1) as u32,
                sh_info: self.local_symbols_count as u32,
                sh_addralign: 8,
                sh_entsize: SYM_SIZE as u64,
            },
        );
        section_offs = end as u64;
        assert(p.headers_upto(n + 2) == Ok::<Seq<Elf64Shdr>, ErrorKind>(self.section_headers@));

        // relocation sections
        let mut j: usize = 0;
        while j < m
            invariant
                j <= m,
                n == self.ctx.sections@.len(),
                m == self.rela_targets@.len(),
                m == self.rela@.len(),
                p == self.parts(),
                p.count() == n + m + 3,
                p.count() + 1 <= 0xffff,
                p.locals <= 0xffff_ffff,
                p.name_offs.len() == p.count(),
                self.same_but_headers(old(self)),
                section_offs == p.offset(n + 2 + j),
                self.section_headers@.len() == n + 3 + j,
                p.targets.len() == m,
                p.rela_lens.len() == m,
                p.sections.len() == n,
                p == old(self).parts(),
                p.headers_upto(n + 2 + j) == Ok::<Seq<Elf64Shdr>, ErrorKind>(
                    self.section_headers@,
                ),
            decreases m - j,
        {
            assert(p.targets[j as int] == self.rela_targets@[j as int]@);
            assert(p.rela_lens[j as int] == self.rela@[j as int]@.len());
            let size: u128 = RELA_SIZE as u128 * self.rela[j].len() as u128;
            let end: u128 = section_offs as u128 + size;
            if end > u64::MAX as u128 {
                proof {
                    p.lemma_headers_err(n + 2 + j + 1, p.count());
                }
                return Err(AsmError::new(ErrorKind::TooLarge));
            }
            // the section that the relocations apply to
            let target = match find_section(&self.ctx.sections, &self.rela_targets[j]) {
                None => {
                    proof {
                        p.lemma_headers_err(n + 2 + j + 1, p.count());
                    }
                    return Err(AsmError::new(ErrorKind::InconsistentSymbol));
                },
                Some(t) => t,
            };
            self.section_headers.push(
                Elf64Shdr {
                    sh_name: self.section_name_offs[n + 3 + j],
                    sh_type: SHT_RELA,
                    sh_flags: SHF_INFO_LINK,
                    sh_addr: 0,
                    sh_offset: section_offs,
                    sh_size: size as u64,
                    sh_link: (n + 2) as u32,
                    sh_info: (target + 1) as u32,
                    sh_addralign: 8,
                    sh_entsize: RELA_SIZE as u64,
                },
            );
            section_offs = end as u64;
            j = j + 1;
        }

        // .shstrtab
        let end: u128 = section_offs as u128 + self.shstrtab.len() as u128;
        if end > u64::MAX as u128 {
            proof {
                p.lemma_headers_err(n + m + 3, p.count());
            }
            return Err(AsmError::new(ErrorKind::TooLarge));
        }
        self.section_headers.push(
            Elf64Shdr {
                sh_name: self.section_name_offs[n + 2],
                sh_type: SHT_STRTAB,
                sh_flags: 0,
                sh_addr: 0,
                sh_offset: section_offs,
                sh_size: self.shstrtab.len() as u64,
                sh_link: 0,
                sh_info: 0,
                sh_addralign: 1,
                sh_entsize: 0,
            },
        );
        assert(p.headers_upto(n + m + 3) == Ok::<Seq<Elf64Shdr>, ErrorKind>(
            self.section_headers@,
        ));

        // elf header
        self.ehdr = Elf64Ehdr {
            e_ident: [
                0x7f, 0x45, 0x4c, 0x46,  // Magic number, 0x7f and 'ELF' in ASCII
                0x02,  // 2 = 64-bit
                0x01,  // 1 = little endian
                0x01, 0x00, 0x00, 0x00, 0x00, 0x00, 0x00, 0x00, 0x00, 0x00,
            ],
            e_type: 1,  // 1 = relocatable
            e_machine: 0x3e,
            e_version: 1,
            e_entry: 0,
            e_phoff: 0,
            e_shoff: end as u64,
            e_flags: 0,
            e_ehsize: EHDR_SIZE as u16,
            e_phentsize: PHDR_SIZE as u16,
            e_phnum: 0,
            e_shentsize: SHDR_SIZE as u16,
            e_shnum: self.section_headers.len() as u16,
            e_shstrndx: (self.section_headers.len() - 1) as u16,
        };
        Ok(())
    }

    /// The tables of the file as built so far.
    pub open spec fn tables(&self) -> Tables {
        Tables {
            symtab: self.sym_tables(),
            relas: self.rela_tables(),
            shstrtab: self.shstrtab@,
            name_offs: self.section_name_offs@,
            headers: self.section_headers@,
            ehdr: self.ehdr,
        }
    }

    /// The bytes of the object file.
    pub open spec fn file_bytes(&self) -> Seq<u8> {
        object_bytes(self.ctx@, self.tables())
    }

    /// Builds all tables of the object file for the program `ctx`: the
    /// undefined names, the symbol and string tables, the relocation
    /// sections, the section names and the headers, in this order.
    pub fn build(ctx: Context, keep_locals: bool) -> (r: Result<Elf, AsmError>)
        ensures
            match spec_tables(ctx@, keep_locals) {
                Ok(t) => r is Ok && r->Ok_0.tables() == t && r->Ok_0.ctx == ctx
                    && r->Ok_0.keep_locals == keep_locals,
                Err(e) => r is Err && r->Err_0 == (AsmError { kind: e, loc: None }),
            },
    {
        let mut e = Elf::new(ctx, keep_locals);
        e.collect_rela_symbols();
        match e.build_symtab_strtab() {
            Err(err) => {
                return Err(err);
            },
            Ok(()) => {},
        }
        match e.rela_text_users() {
            Err(err) => {
                return Err(err);
            },
            Ok(()) => {},
        }
        match e.build_shstrtab() {
            Err(err) => {
                return Err(err);
            },
            Ok(()) => {},
        }
        proof {
            let symtab = e.sym_tables();
            let relas = e.rela_tables();
            assert(e.parts().rela_lens =~= relas.entries.map_values(
                |l: Seq<Elf64Rela>| l.len() as int,
            ));
            assert(e.parts() == parts_of(ctx@, symtab, relas, e.shstrtab@, e.section_name_offs@));
        }
        match e.build_headers() {
            Err(err) => {
                return Err(err);
            },
            Ok(()) => {},
        }
        Ok(e)
    }

    /// Lays out the object file as bytes.
    pub fn to_bytes(&self) -> (out: Vec<u8>)
        ensures
            out@ == self.file_bytes(),
    {
        let mut out: Vec<u8> = Vec::new();
        push_ehdr(&mut out, &self.ehdr);
        let ghost head = out@;
        assert(head =~= ehdr_bytes(self.ehdr));

        // user-defined sections
        let ghost sections = self.ctx@.sections;
        let mut i: usize = 0;
        while i < self.ctx.sections.len()
            invariant
                i <= self.ctx.sections@.len(),
                sections == self.ctx@.sections,
                out@ == head + code_bytes(sections, i as int),
            decreases self.ctx.sections@.len() - i,
        {
            assert(sections[i as int] == self.ctx.sections@[i as int]@);
            append_bytes(&mut out, self.ctx.sections[i].code.as_slice());
            assert(out@ =~= head + code_bytes(sections, i + 1));
            i = i + 1;
        }
        append_bytes(&mut out, self.strtab.as_slice());
        let ghost head = out@;

        // .symtab
        let mut i: usize = 0;
        while i < self.symtab.len()
            invariant
                i <= self.symtab@.len(),
                out@ == head + symtab_bytes(self.symtab@, i as int),
            decreases self.symtab@.len() - i,
        {
            push_sym(&mut out, &self.symtab[i]);
            assert(out@ =~= head + symtab_bytes(self.symtab@, i + 1));
            i = i + 1;
        }
        let ghost head = out@;

        // relocation sections
        let ghost rela = entry_views(self.rela@);
        let mut i: usize = 0;
        while i < self.rela.len()
            invariant
                i <= self.rela@.len(),
                rela == entry_views(self.rela@),
                out@ == head + rela_table_bytes(rela, i as int),
            decreases self.rela@.len() - i,
        {
            let ghost before = out@;
            let list = &self.rela[i];
            assert(rela[i as int] == list@);
            let mut j: usize = 0;
            while j < list.len()
                invariant
                    j <= list@.len(),
                    out@ == before + rela_list_bytes(list@, j as int),
                decreases list@.len() - j,
            {
                push_rela(&mut out, &list[j]);
                assert(out@ =~= before + rela_list_bytes(list@, j + 1));
                j = j + 1;
            }
            assert(out@ =~= head + rela_table_bytes(rela, i + 1));
            i = i + 1;
        }
        append_bytes(&mut out, self.shstrtab.as_slice());
        let ghost head = out@;

        // section headers
        let mut i: usize = 0;
        while i < self.section_headers.len()
            invariant
                i <= self.section_headers@.len(),
                out@ == head + shdr_table_bytes(self.section_headers@, i as int),
            decreases self.section_headers@.len() - i,
        {
            push_shdr(&mut out, &self.section_headers[i]);
            assert(out@ =~= head + shdr_table_bytes(self.section_headers@, i + 1));
            i = i + 1;
        }
        assert(out@ =~= self.file_bytes());
        out
    }

    /// Appends the rows of the defined symbols with the given binding,
    /// in symbol-table order: one row for each symbol of that binding.
    /// Where local labels are not kept, a local symbol whose name
    /// carries the local-label marker gets no row, no name in the string
    /// table and no count. Each other symbol's name goes to the end of
    /// the string table, and its row tells where, or 0 for a section
    /// symbol. The pass for local symbols raises the count of local rows
    /// by the rows it appends. It fails for a symbol whose section
    /// does not exist, for a section index above 0xffff, and when the
    /// string table grows above `TABLE_LIMIT`.
    pub fn elf_symbol(&mut self, symbol_binding: u8) -> (r: Result<(), AsmError>)
        requires
            symbol_binding == STB_LOCAL || symbol_binding == STB_GLOBAL,
            old(self).local_symbols_count <= old(self).symtab@.len(),
            old(self).strtab@.len() <= TABLE_LIMIT,
        ensures
            final(self).same_but_symtab(old(self)),
            match add_symbols(
                Ok(old(self).sym_tables()),
                old(self).ctx@,
                symbol_binding,
                old(self).keep_locals,
                old(self).ctx.symbols@.len() as int,
            ) {
                Ok(t) => r is Ok && final(self).sym_tables() == t
                    && final(self).local_symbols_count <= final(self).symtab@.len()
                    && final(self).strtab@.len() <= TABLE_LIMIT && symbols_appended(
                    old(self).sym_tables(),
                    t,
                    kept_symbols(
                        old(self).ctx@,
                        symbol_binding,
                        old(self).keep_locals,
                        old(self).ctx.symbols@.len() as int,
                    ),
                    old(self).ctx@,
                ) && final(self).local_symbols_count == old(self).local_symbols_count + (
                if symbol_binding == STB_LOCAL {
                    kept_symbols(
                        old(self).ctx@,
                        symbol_binding,
                        old(self).keep_locals,
                        old(self).ctx.symbols@.len() as int,
                    ).len() as int
                } else {
                    0
                }),
                Err(e) => r == Err::<(), AsmError>(AsmError { kind: e, loc: None }),
            },
    {
        proof {
            lemma_symbol_rows(
                self.sym_tables(),
                self.ctx@,
                symbol_binding,
                self.keep_locals,
                self.ctx.symbols@.len() as int,
            );
        }
        let ghost start = Ok::<SymTables, ErrorKind>(self.sym_tables());
        let ghost c = self.ctx@;
        let n = self.ctx.symbols.len();
        let mut i: usize = 0;
        while i < n
            invariant
                i <= n,
                n == self.ctx.symbols@.len(),
                c == self.ctx@,
                start == Ok::<SymTables, ErrorKind>(old(self).sym_tables()),
                symbol_binding == STB_LOCAL || symbol_binding == STB_GLOBAL,
                self.same_but_symtab(old(self)),
                self.local_symbols_count <= self.symtab@.len(),
                self.strtab@.len() <= TABLE_LIMIT,
                add_symbols(start, c, symbol_binding, self.keep_locals, i as int) == Ok::<
                    SymTables,
                    ErrorKind,
                >(self.sym_tables()),
            decreases n - i,
        {
            let ghost before = self.sym_tables();
            let ghost sym = c.symbols[i as int];
            assert(sym == self.ctx.symbols@[i as int]@);
            let skip = self.ctx.symbols[i].binding != symbol_binding || (symbol_binding == STB_LOCAL
                && !self.keep_locals && is_local_label(&self.ctx.symbols[i].symbol_name));
            if !skip {
                match find_section(&self.ctx.sections, &self.ctx.symbols[i].section) {
                    None => {
                        proof {
                            lemma_add_symbols_err(
                                start,
                                c,
                                symbol_binding,
                                self.keep_locals,
                                i + 1,
                                n as int,
                            );
                        }
                        return Err(AsmError::new(ErrorKind::InconsistentSymbol));
                    },
                    Some(k) => {
                        if k >= 0xffff {
                            proof {
                                lemma_add_symbols_err(
                                    start,
                                    c,
                                    symbol_binding,
                                    self.keep_locals,
                                    i + 1,
                                    n as int,
                                );
                            }
                            return Err(AsmError::new(ErrorKind::TooLarge));
                        }
                        let name_off = self.strtab.len();
                        let st_name: u32 = if self.ctx.symbols[i].symbol_type == STT_SECTION {
                            0
                        } else {
                            name_off as u32
                        };
                        let row = Elf64Sym {
                            st_name,
                            st_info: symbol_binding * 16 + self.ctx.symbols[i].symbol_type % 16,
                            st_other: self.ctx.symbols[i].visibility,
                            st_shndx: (k + 1) as u16,
                            st_value: self.ctx.symbols[i].addr as u64,
                            st_size: 0,
                        };
                        self.symtab.push(row);
                        self.symtab_names.push(self.ctx.symbols[i].symbol_name.clone());
                        append_bytes(&mut self.strtab, self.ctx.symbols[i].symbol_name.as_str().as_bytes());
                        self.strtab.push(0u8);
                        if symbol_binding == STB_LOCAL && self.local_symbols_count
                            < self.symtab.len() {
                            self.local_symbols_count = self.local_symbols_count + 1;
                        }
                        assert(self.sym_tables().names =~= add_symbol(before, sym, k + 1).names);
                        assert(self.sym_tables().strtab =~= add_symbol(before, sym, k + 1).strtab);
                        assert(self.sym_tables() == add_symbol(before, sym, k + 1));
                        if self.strtab.len() > TABLE_LIMIT {
                            proof {
                                lemma_add_symbols_err(
                                    start,
                                    c,
                                    symbol_binding,
                                    self.keep_locals,
                                    i + 1,
                                    n as int,
                                );
                            }
                            return Err(AsmError::new(ErrorKind::TooLarge));
                        }
                    },
                }
            }
            i = i + 1;
        }
        Ok(())
    }
}

} // verus!
