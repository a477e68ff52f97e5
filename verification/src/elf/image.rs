//! The bytes of an object file: every record field by field in
//! little-endian order, and the parts of the file one after the other.

use crate::elf::elf64::{Elf64Ehdr, Elf64Rela, Elf64Shdr, Elf64Sym};
use crate::elf::tables::Tables;
use crate::encoder::{ContextView, SectionView};
use crate::layout::{le_bytes, twos_complement_64};
use vstd::prelude::*;

verus! {

/// The 64 bytes of a file header.
pub open spec fn ehdr_bytes(h: Elf64Ehdr) -> Seq<u8> {
    h.e_ident@ + le_bytes(h.e_type as nat, 2) + le_bytes(h.e_machine as nat, 2) + le_bytes(
        h.e_version as nat,
        4,
    ) + le_bytes(h.e_entry as nat, 8) + le_bytes(h.e_phoff as nat, 8) + le_bytes(
        h.e_shoff as nat,
        8,
    ) + le_bytes(h.e_flags as nat, 4) + le_bytes(h.e_ehsize as nat, 2) + le_bytes(
        h.e_phentsize as nat,
        2,
    ) + le_bytes(h.e_phnum as nat, 2) + le_bytes(h.e_shentsize as nat, 2) + le_bytes(
        h.e_shnum as nat,
        2,
    ) + le_bytes(h.e_shstrndx as nat, 2)
}

/// The 24 bytes of a symbol-table row.
pub open spec fn sym_bytes(s: Elf64Sym) -> Seq<u8> {
    le_bytes(s.st_name as nat, 4) + seq![s.st_info] + seq![s.st_other] + le_bytes(
        s.st_shndx as nat,
        2,
    ) + le_bytes(s.st_value as nat, 8) + le_bytes(s.st_size as nat, 8)
}

/// The 24 bytes of a relocation entry.
pub open spec fn rela_bytes(r: Elf64Rela) -> Seq<u8> {
    le_bytes(r.r_offset as nat, 8) + le_bytes(r.r_info as nat, 8) + le_bytes(
        twos_complement_64(r.r_addend as int),
        8,
    )
}

/// The 64 bytes of a section header.
pub open spec fn shdr_bytes(h: Elf64Shdr) -> Seq<u8> {
    le_bytes(h.sh_name as nat, 4) + le_bytes(h.sh_type as nat, 4) + le_bytes(
        h.sh_flags as nat,
        8,
    ) + le_bytes(h.sh_addr as nat, 8) + le_bytes(h.sh_offset as nat, 8) + le_bytes(
        h.sh_size as nat,
        8,
    ) + le_bytes(h.sh_link as nat, 4) + le_bytes(h.sh_info as nat, 4) + le_bytes(
        h.sh_addralign as nat,
        8,
    ) + le_bytes(h.sh_entsize as nat, 8)
}

/// The contents of the first `n` sections, one after the other.
pub open spec fn code_bytes(sections: Seq<SectionView>, n: int) -> Seq<u8>
    decreases n,
{
    if n <= 0 {
        Seq::empty()
    } else {
        code_bytes(sections, n - 1) + sections[n - 1].code
    }
}

/// The bytes of the first `n` symbol-table rows.
pub open spec fn symtab_bytes(rows: Seq<Elf64Sym>, n: int) -> Seq<u8>
    decreases n,
{
    if n <= 0 {
        Seq::empty()
    } else {
        symtab_bytes(rows, n - 1) + sym_bytes(rows[n - 1])
    }
}

/// The bytes of the first `n` entries of a relocation section.
pub open spec fn rela_list_bytes(entries: Seq<Elf64Rela>, n: int) -> Seq<u8>
    decreases n,
{
    if n <= 0 {
        Seq::empty()
    } else {
        rela_list_bytes(entries, n - 1) + rela_bytes(entries[n - 1])
    }
}

/// The bytes of the first `n` relocation sections.
pub open spec fn rela_table_bytes(rela: Seq<Seq<Elf64Rela>>, n: int) -> Seq<u8>
    decreases n,
{
    if n <= 0 {
        Seq::empty()
    } else {
        rela_table_bytes(rela, n - 1) + rela_list_bytes(rela[n - 1], rela[n - 1].len() as int)
    }
}

/// The bytes of the first `n` section headers.
pub open spec fn shdr_table_bytes(headers: Seq<Elf64Shdr>, n: int) -> Seq<u8>
    decreases n,
{
    if n <= 0 {
        Seq::empty()
    } else {
        shdr_table_bytes(headers, n - 1) + shdr_bytes(headers[n - 1])
    }
}

/// The bytes of the object file: the file header, the contents of the
/// program's sections, `.strtab`, `.symtab`, the relocation sections,
/// `.shstrtab` and the section header table, every field in
/// little-endian byte order.
pub open spec fn object_bytes(c: ContextView, t: Tables) -> Seq<u8> {
    ehdr_bytes(t.ehdr) + code_bytes(c.sections, c.sections.len() as int) + t.symtab.strtab
        + symtab_bytes(t.symtab.rows, t.symtab.rows.len() as int) + rela_table_bytes(
        t.relas.entries,
        t.relas.entries.len() as int,
    ) + t.shstrtab + shdr_table_bytes(t.headers, t.headers.len() as int)
}

/// The contents of section `k` of the file, counted as the headers are
/// after the null header: a section of the program, the string table,
/// the symbol table, a relocation section, or the section-name string
/// table.
pub open spec fn section_content(c: ContextView, t: Tables, k: int) -> Seq<u8> {
    let n = c.sections.len() as int;
    let m = t.relas.targets.len() as int;
    if k < n {
        c.sections[k].code
    } else if k == n {
        t.symtab.strtab
    } else if k == n + 1 {
        symtab_bytes(t.symtab.rows, t.symtab.rows.len() as int)
    } else if k < n + 2 + m {
        rela_list_bytes(t.relas.entries[k - n - 2], t.relas.entries[k - n - 2].len() as int)
    } else {
        t.shstrtab
    }
}

} // verus!
