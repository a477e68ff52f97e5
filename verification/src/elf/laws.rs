//! What holds of every object file that the writer builds: every
//! pending relocation has its entry, and the entry refers to the row of
//! the name it uses; the symbol table holds the null row, the local
//! symbols, the undefined names and the global symbols, in this order
//! and nothing else; names stand in the string tables where the rows
//! and headers say; and every section lies where its header says.

use crate::elf::constants::{
    EHDR_SIZE, RELA_SIZE, SHDR_SIZE, SHT_SYMTAB, STB_GLOBAL, STB_LOCAL, STT_SECTION, SYM_SIZE,
};
use crate::elf::elf64::{Elf, Elf64Ehdr, Elf64Rela, Elf64Shdr, Elf64Sym, TABLE_LIMIT};
use crate::elf::image::{
    code_bytes, ehdr_bytes, object_bytes, rela_bytes, rela_list_bytes, rela_table_bytes,
    section_content, shdr_bytes, shdr_table_bytes, sym_bytes, symtab_bytes,
};
use crate::elf::tables::{
    add_rela, add_relas, add_symbol, add_symbols, add_undefined, base_addend, kept_symbols,
    lemma_add_symbols_err, lemma_add_undefined_err, name_table, pad16, parts_of, rela_entry,
    shstr_names, skips_symbol, spec_shstrtab, spec_symtab, symbol_row, symtab_null,
    undefined_row, Parts, RelaTables, SymTables, Tables,
};
use crate::encoder::{
    section_names, symbol_names, ContextView, InstrView, RelaView, SectionView,
};
use crate::error::ErrorKind;
use crate::layout::{lemma_le_bytes_len, twos_complement_64};
use vstd::utf8::encode_utf8;
use vstd::prelude::*;

verus! {

/// The entries that the relocations among the first `n` give to the
/// relocation section of `section`: one for each that is not marked
/// resolved and whose instruction stands in `section`, in order.
pub open spec fn section_entries(
    c: ContextView,
    names: Seq<Seq<char>>,
    section: Seq<char>,
    n: int,
) -> Seq<Elf64Rela>
    decreases n,
{
    if n <= 0 {
        Seq::empty()
    } else {
        let r = c.relas[n - 1];
        let prev = section_entries(c, names, section, n - 1);
        if !r.is_already_resolved && r.instr.section == section {
            match rela_entry(c, names, r) {
                Ok(entry) => prev.push(entry),
                Err(_) => prev,
            }
        } else {
            prev
        }
    }
}

/// Whether the relocation sections hold what the first `n` relocations
/// give them: no section twice, each with exactly its entries, and no
/// entries left for a section that is not listed.
pub open spec fn holds_all_entries(
    t: RelaTables,
    c: ContextView,
    names: Seq<Seq<char>>,
    n: int,
) -> bool {
    &&& t.targets.len() == t.entries.len()
    &&& forall|i: int, j: int|
        0 <= i < j < t.targets.len() ==> #[trigger] t.targets[i] != #[trigger] t.targets[j]
    &&& forall|i: int|
        0 <= i < t.targets.len() ==> #[trigger] t.entries[i] == section_entries(
            c,
            names,
            t.targets[i],
            n,
        )
    &&& forall|section: Seq<char>|
        !t.targets.contains(section) ==> #[trigger] section_entries(c, names, section, n).len()
            == 0
    &&& forall|k: int|
        0 <= k < n && !c.relas[k].is_already_resolved ==> (#[trigger] rela_entry(
            c,
            names,
            c.relas[k],
        )) is Ok
}

/// Relocation completeness. When the relocation sections can be built,
/// every relocation that is not marked resolved has an entry, and has it
/// exactly once: the section `.rela<section>` holds, in order, one entry
/// for each such relocation whose instruction stands in `<section>`, and
/// nothing else; a section without such relocations has no relocation
/// section.
pub proof fn lemma_relocations_complete(c: ContextView, names: Seq<Seq<char>>, n: int)
    requires
        0 <= n <= c.relas.len(),
    ensures
        match add_relas(c, names, n) {
            Ok(t) => holds_all_entries(t, c, names, n),
            Err(_) => true,
        },
    decreases n,
{
    if n > 0 {
        lemma_relocations_complete(c, names, n - 1);
        match add_relas(c, names, n - 1) {
            Ok(prev) => {
                let r = c.relas[n - 1];
                if r.is_already_resolved {
                    assert forall|i: int| 0 <= i < prev.targets.len() implies #[trigger] prev.entries[i]
                        == section_entries(c, names, prev.targets[i], n) by {
                        assert(prev.entries[i] == section_entries(c, names, prev.targets[i], n - 1));
                    }
                    assert forall|section: Seq<char>|
                        !prev.targets.contains(section) implies #[trigger] section_entries(
                        c,
                        names,
                        section,
                        n,
                    ).len() == 0 by {
                        assert(section_entries(c, names, section, n - 1).len() == 0);
                    }
                    assert(holds_all_entries(prev, c, names, n));
                } else {
                    match rela_entry(c, names, r) {
                        Ok(entry) => {
                            let s = r.instr.section;
                            let t = add_rela(prev, s, entry);
                            prev.targets.index_of_first_ensures(s);
                            match prev.targets.index_of_first(s) {
                                Some(at) => {
                                    assert forall|i: int| 0 <= i < t.targets.len() implies #[trigger] t.entries[i]
                                        == section_entries(c, names, t.targets[i], n) by {
                                        assert(prev.entries[i] == section_entries(
                                            c,
                                            names,
                                            prev.targets[i],
                                            n - 1,
                                        ));
                                        if i != at {
                                            if i < at {
                                                assert(prev.targets[i] != prev.targets[at]);
                                            } else {
                                                assert(prev.targets[at] != prev.targets[i]);
                                            }
                                        }
                                    }
                                    assert forall|section: Seq<char>|
                                        !t.targets.contains(section) implies #[trigger] section_entries(
                                        c,
                                        names,
                                        section,
                                        n,
                                    ).len() == 0 by {
                                        assert(t.targets[at] == s);
                                        assert(section != s);
                                        assert(!prev.targets.contains(section));
                                        assert(section_entries(c, names, section, n - 1).len() == 0);
                                    }
                                },
                                None => {
                                    assert(section_entries(c, names, s, n - 1).len() == 0);
                                    assert(seq![entry] =~= section_entries(c, names, s, n));
                                    assert forall|i: int, j: int|
                                        0 <= i < j < t.targets.len() implies #[trigger] t.targets[i]
                                        != #[trigger] t.targets[j] by {
                                        if j == prev.targets.len() {
                                            assert(prev.targets.contains(prev.targets[i]));
                                        }
                                    }
                                    assert forall|i: int| 0 <= i < t.targets.len() implies #[trigger] t.entries[i]
                                        == section_entries(c, names, t.targets[i], n) by {
                                        if i < prev.targets.len() {
                                            assert(prev.targets.contains(prev.targets[i]));
                                            assert(t.targets[i] != s);
                                            assert(prev.entries[i] == section_entries(
                                                c,
                                                names,
                                                prev.targets[i],
                                                n - 1,
                                            ));
                                        }
                                    }
                                    assert forall|section: Seq<char>|
                                        !t.targets.contains(section) implies #[trigger] section_entries(
                                        c,
                                        names,
                                        section,
                                        n,
                                    ).len() == 0 by {
                                        assert(t.targets[prev.targets.len() as int] == s);
                                        assert(section != s);
                                        if prev.targets.contains(section) {
                                            let w = choose|w: int|
                                                0 <= w < prev.targets.len() && prev.targets[w]
                                                    == section;
                                            assert(t.targets[w] == section);
                                        }
                                        assert(!prev.targets.contains(section));
                                        assert(section_entries(c, names, section, n - 1).len() == 0);
                                    }
                                },
                            }
                            assert(holds_all_entries(t, c, names, n));
                        },
                        Err(_) => {},
                    }
                }
            },
            Err(_) => {},
        }
    }
}

/// The symbol index of a relocation entry is the row of the referenced
/// name. Where a row of the symbol table carries the name that the
/// relocation uses, the entry's index is the first such row, and its
/// addend is what the relocation type brings plus the relocation's
/// adjustment; the symbol's address is no part of it. The entry's type
/// is the relocation's type.
pub proof fn lemma_entry_names_target(c: ContextView, names: Seq<Seq<char>>, r: RelaView, row: int)
    requires
        names.index_of_first(r.uses) == Some(row),
    ensures
        0 <= row < names.len(),
        names[row] == r.uses,
        match rela_entry(c, names, r) {
            Ok(entry) => {
                &&& entry.r_info as int / 0x1_0000_0000 == row
                &&& entry.r_info as int % 0x1_0000_0000 == r.rtype
                &&& entry.r_addend == base_addend(r) + r.adjust
                &&& entry.r_offset == r.instr.addr + r.offset
            },
            Err(e) => e == ErrorKind::TooLarge,
        },
{
    names.index_of_first_ensures(r.uses);
}

/// A relocation against a name that has no row refers to the row of
/// the section that defines the name, and its addend holds the address
/// of the name in that section.
pub proof fn lemma_entry_of_name_without_row(c: ContextView, names: Seq<Seq<char>>, r: RelaView)
    requires
        names.index_of_first(r.uses) is None,
    ensures
        match rela_entry(c, names, r) {
            Ok(entry) => {
                let index = entry.r_info as int / 0x1_0000_0000;
                let k = symbol_names(c.symbols).index_of_first(r.uses);
                &&& k is Some
                &&& 0 <= index < names.len()
                &&& names[index] == c.symbols[k->Some_0].section
                &&& entry.r_info as int % 0x1_0000_0000 == r.rtype
                &&& entry.r_addend == base_addend(r) + c.symbols[k->Some_0].addr + r.adjust
            },
            Err(_) => true,
        },
{
    if let Some(k) = symbol_names(c.symbols).index_of_first(r.uses) {
        names.index_of_first_ensures(c.symbols[k].section);
    }
}

/// A file header takes 64 bytes.
pub proof fn lemma_ehdr_size(h: Elf64Ehdr)
    ensures
        ehdr_bytes(h).len() == EHDR_SIZE,
{
    lemma_le_bytes_len(h.e_type as nat, 2);
    lemma_le_bytes_len(h.e_machine as nat, 2);
    lemma_le_bytes_len(h.e_version as nat, 4);
    lemma_le_bytes_len(h.e_entry as nat, 8);
    lemma_le_bytes_len(h.e_phoff as nat, 8);
    lemma_le_bytes_len(h.e_shoff as nat, 8);
    lemma_le_bytes_len(h.e_flags as nat, 4);
    lemma_le_bytes_len(h.e_ehsize as nat, 2);
    lemma_le_bytes_len(h.e_phentsize as nat, 2);
    lemma_le_bytes_len(h.e_phnum as nat, 2);
    lemma_le_bytes_len(h.e_shentsize as nat, 2);
    lemma_le_bytes_len(h.e_shnum as nat, 2);
    lemma_le_bytes_len(h.e_shstrndx as nat, 2);
}

/// A symbol-table row takes 24 bytes.
pub proof fn lemma_sym_size(s: Elf64Sym)
    ensures
        sym_bytes(s).len() == SYM_SIZE,
{
    lemma_le_bytes_len(s.st_name as nat, 4);
    lemma_le_bytes_len(s.st_shndx as nat, 2);
    lemma_le_bytes_len(s.st_value as nat, 8);
    lemma_le_bytes_len(s.st_size as nat, 8);
}

/// A relocation entry takes 24 bytes.
pub proof fn lemma_rela_size(r: Elf64Rela)
    ensures
        rela_bytes(r).len() == RELA_SIZE,
{
    lemma_le_bytes_len(r.r_offset as nat, 8);
    lemma_le_bytes_len(r.r_info as nat, 8);
    lemma_le_bytes_len(twos_complement_64(r.r_addend as int), 8);
}

/// A section header takes 64 bytes.
pub proof fn lemma_shdr_size(sh: Elf64Shdr)
    ensures
        shdr_bytes(sh).len() == SHDR_SIZE,
{
    lemma_le_bytes_len(sh.sh_name as nat, 4);
    lemma_le_bytes_len(sh.sh_type as nat, 4);
    lemma_le_bytes_len(sh.sh_flags as nat, 8);
    lemma_le_bytes_len(sh.sh_addr as nat, 8);
    lemma_le_bytes_len(sh.sh_offset as nat, 8);
    lemma_le_bytes_len(sh.sh_size as nat, 8);
    lemma_le_bytes_len(sh.sh_link as nat, 4);
    lemma_le_bytes_len(sh.sh_info as nat, 4);
    lemma_le_bytes_len(sh.sh_addralign as nat, 8);
    lemma_le_bytes_len(sh.sh_entsize as nat, 8);
}

/// A table of `n` symbol rows takes `24 * n` bytes.
pub proof fn lemma_symtab_bytes_len(rows: Seq<Elf64Sym>, n: int)
    requires
        0 <= n <= rows.len(),
    ensures
        symtab_bytes(rows, n).len() == SYM_SIZE * n,
    decreases n,
{
    if n > 0 {
        lemma_symtab_bytes_len(rows, n - 1);
        lemma_sym_size(rows[n - 1]);
    }
}

/// A list of `n` relocation entries takes `24 * n` bytes.
pub proof fn lemma_rela_list_bytes_len(entries: Seq<Elf64Rela>, n: int)
    requires
        0 <= n <= entries.len(),
    ensures
        rela_list_bytes(entries, n).len() == RELA_SIZE * n,
    decreases n,
{
    if n > 0 {
        lemma_rela_list_bytes_len(entries, n - 1);
        lemma_rela_size(entries[n - 1]);
    }
}

/// A table of `n` section headers takes `64 * n` bytes.
pub proof fn lemma_shdr_table_bytes_len(headers: Seq<Elf64Shdr>, n: int)
    requires
        0 <= n <= headers.len(),
    ensures
        shdr_table_bytes(headers, n).len() == SHDR_SIZE * n,
    decreases n,
{
    if n > 0 {
        lemma_shdr_table_bytes_len(headers, n - 1);
        lemma_shdr_size(headers[n - 1]);
    }
}

/// The joined contents of the first `j` sections of the program end
/// where the next section starts.
pub(crate) proof fn lemma_code_len(p: Parts, j: int)
    requires
        0 <= j <= p.sections.len(),
    ensures
        code_bytes(p.sections, j).len() == p.offset(j) - EHDR_SIZE,
        EHDR_SIZE <= p.offset(j),
    decreases j,
{
    if j > 0 {
        lemma_code_len(p, j - 1);
    }
}

/// The joined contents of the first `j` sections of the program are
/// those of the first `k`, then section `k`, then the rest.
pub(crate) proof fn lemma_code_split(sections: Seq<SectionView>, j: int, k: int) -> (rest:
    Seq<u8>)
    requires
        0 <= k < j <= sections.len(),
    ensures
        code_bytes(sections, j) == code_bytes(sections, k) + sections[k].code + rest,
    decreases j,
{
    if k == j - 1 {
        let rest = Seq::<u8>::empty();
        assert(code_bytes(sections, j) =~= code_bytes(sections, k) + sections[k].code + rest);
        rest
    } else {
        let before = lemma_code_split(sections, j - 1, k);
        let rest = before + sections[j - 1].code;
        assert(code_bytes(sections, j) =~= code_bytes(sections, k) + sections[k].code + rest);
        rest
    }
}

/// The joined entries of the first `j` relocation sections end where
/// the next section starts.
pub(crate) proof fn lemma_rela_len(p: Parts, rela: Seq<Seq<Elf64Rela>>, j: int)
    requires
        rela.len() == p.targets.len(),
        p.rela_lens == rela.map_values(|l: Seq<Elf64Rela>| l.len() as int),
        0 <= j <= rela.len(),
    ensures
        rela_table_bytes(rela, j).len() == p.offset(p.sections.len() as int + 2 + j) - p.offset(
            p.sections.len() as int + 2,
        ),
    decreases j,
{
    if j > 0 {
        lemma_rela_len(p, rela, j - 1);
        lemma_rela_list_bytes_len(rela[j - 1], rela[j - 1].len() as int);
    }
}

/// The joined entries of the first `j` relocation sections are those
/// of the first `i`, then section `i`, then the rest.
pub(crate) proof fn lemma_rela_split(rela: Seq<Seq<Elf64Rela>>, j: int, i: int) -> (rest: Seq<u8>)
    requires
        0 <= i < j <= rela.len(),
    ensures
        rela_table_bytes(rela, j) == rela_table_bytes(rela, i) + rela_list_bytes(
            rela[i],
            rela[i].len() as int,
        ) + rest,
    decreases j,
{
    let list = rela_list_bytes(rela[i], rela[i].len() as int);
    if i == j - 1 {
        let rest = Seq::<u8>::empty();
        assert(rela_table_bytes(rela, j) =~= rela_table_bytes(rela, i) + list + rest);
        rest
    } else {
        let before = lemma_rela_split(rela, j - 1, i);
        let rest = before + rela_list_bytes(rela[j - 1], rela[j - 1].len() as int);
        assert(rela_table_bytes(rela, j) =~= rela_table_bytes(rela, i) + list + rest);
        rest
    }
}

/// The part in the middle of three joined sequences.
pub(crate) proof fn lemma_middle(a: Seq<u8>, b: Seq<u8>, c: Seq<u8>)
    ensures
        (a + b + c).subrange(a.len() as int, (a.len() + b.len()) as int) == b,
        (a + b + c).len() == a.len() + b.len() + c.len(),
{
    assert((a + b + c).subrange(a.len() as int, (a.len() + b.len()) as int) =~= b);
}

/// The fields of a built header: section `k` starts at its offset and
/// has its size, and the header table follows the last section.
pub(crate) proof fn lemma_header_fields(p: Parts, headers: Seq<Elf64Shdr>, ehdr: Elf64Ehdr, k: int)
    requires
        p.headers() == Ok::<(Seq<Elf64Shdr>, Elf64Ehdr), ErrorKind>((headers, ehdr)),
        0 <= k < p.count(),
        forall|i: int| 0 <= i < p.rela_lens.len() ==> p.rela_lens[i] >= 0,
        p.strtab_len >= 0,
        p.rows >= 0,
        p.shstrtab_len >= 0,
    ensures
        headers.len() == p.count() + 1,
        headers[k + 1].sh_offset == p.offset(k),
        headers[k + 1].sh_size == p.size(k),
        ehdr.e_shoff == p.offset(p.count()),
        p.offset(k) + p.size(k) <= p.offset(p.count()),
{
    let last = p.count() - 1;
    p.lemma_headers_upto(p.count());
    assert(p.header(k) == Ok::<Elf64Shdr, ErrorKind>(headers[k + 1]));
    assert(p.header(last) == Ok::<Elf64Shdr, ErrorKind>(headers[last + 1]));
    lemma_offsets_grow(p, 0, k);
    lemma_offsets_grow(p, k, last);
    lemma_offsets_grow(p, 0, last);
    assert(p.offset(p.count()) == p.offset(last) + p.size(last));
}

/// The file as two parts: everything before the section header table,
/// and the table. The first part ends behind the last section.
pub(crate) proof fn lemma_file_end(c: ContextView, t: Tables) -> (head: Seq<u8>)
    requires
        t.relas.entries.len() == t.relas.targets.len(),
    ensures
        object_bytes(c, t) == head + shdr_table_bytes(t.headers, t.headers.len() as int),
        head.len() == parts_of(c, t.symtab, t.relas, t.shstrtab, t.name_offs).offset(
            (c.sections.len() + t.relas.targets.len() + 3) as int,
        ),
{
    lemma_part_offsets(c, t);
    let head = ehdr_bytes(t.ehdr) + code_bytes(c.sections, c.sections.len() as int)
        + t.symtab.strtab + symtab_bytes(t.symtab.rows, t.symtab.rows.len() as int)
        + rela_table_bytes(t.relas.entries, t.relas.entries.len() as int) + t.shstrtab;
    assert(object_bytes(c, t) =~= head + shdr_table_bytes(t.headers, t.headers.len() as int));
    head
}

/// Where the parts of the file start: the lengths of the file header,
/// of the joined sections of the program, of the symbol table and of the
/// joined relocation sections add up to the offsets.
pub(crate) proof fn lemma_part_offsets(c: ContextView, t: Tables)
    requires
        t.relas.entries.len() == t.relas.targets.len(),
    ensures
        ({
            let p = parts_of(c, t.symtab, t.relas, t.shstrtab, t.name_offs);
            let n = c.sections.len() as int;
            let m = t.relas.targets.len() as int;
            &&& ehdr_bytes(t.ehdr).len() == EHDR_SIZE
            &&& code_bytes(c.sections, n).len() == p.offset(n) - EHDR_SIZE
            &&& p.offset(n + 1) == p.offset(n) + t.symtab.strtab.len()
            &&& p.offset(n + 2) == p.offset(n + 1) + symtab_bytes(
                t.symtab.rows,
                t.symtab.rows.len() as int,
            ).len()
            &&& p.offset(n + 2 + m) == p.offset(n + 2) + rela_table_bytes(t.relas.entries, m).len()
            &&& p.offset(n + 3 + m) == p.offset(n + 2 + m) + t.shstrtab.len()
        }),
{
    let p = parts_of(c, t.symtab, t.relas, t.shstrtab, t.name_offs);
    let n = c.sections.len() as int;
    let m = t.relas.targets.len() as int;
    lemma_ehdr_size(t.ehdr);
    lemma_code_len(p, n);
    lemma_symtab_bytes_len(t.symtab.rows, t.symtab.rows.len() as int);
    lemma_rela_len(p, t.relas.entries, m);
    lemma_rela_len(p, t.relas.entries, 0);
    assert(p.offset(n + 1) == p.offset(n) + p.size(n));
    assert(p.offset(n + 2) == p.offset(n + 1) + p.size(n + 1));
    assert(p.offset(n + 3 + m) == p.offset(n + 2 + m) + p.size(n + 2 + m));
}

/// The file as three parts around a section of the program.
pub(crate) proof fn lemma_file_split_code(c: ContextView, t: Tables, k: int) -> (parts: (
    Seq<u8>,
    Seq<u8>,
))
    requires
        t.relas.entries.len() == t.relas.targets.len(),
        0 <= k < c.sections.len(),
    ensures
        object_bytes(c, t) == parts.0 + c.sections[k].code + parts.1,
        parts.0.len() == parts_of(c, t.symtab, t.relas, t.shstrtab, t.name_offs).offset(k),
{
    let p = parts_of(c, t.symtab, t.relas, t.shstrtab, t.name_offs);
    let n = c.sections.len() as int;
    lemma_ehdr_size(t.ehdr);
    lemma_code_len(p, k);
    let rest = lemma_code_split(c.sections, n, k);
    let pre = ehdr_bytes(t.ehdr) + code_bytes(c.sections, k);
    let post = rest + t.symtab.strtab + symtab_bytes(t.symtab.rows, t.symtab.rows.len() as int)
        + rela_table_bytes(t.relas.entries, t.relas.entries.len() as int) + t.shstrtab
        + shdr_table_bytes(t.headers, t.headers.len() as int);
    assert(object_bytes(c, t) =~= pre + c.sections[k].code + post);
    (pre, post)
}

/// The file as three parts around a relocation section.
pub(crate) proof fn lemma_file_split_rela(c: ContextView, t: Tables, i: int) -> (parts: (
    Seq<u8>,
    Seq<u8>,
))
    requires
        t.relas.entries.len() == t.relas.targets.len(),
        0 <= i < t.relas.entries.len(),
    ensures
        object_bytes(c, t) == parts.0 + rela_list_bytes(
            t.relas.entries[i],
            t.relas.entries[i].len() as int,
        ) + parts.1,
        parts.0.len() == parts_of(c, t.symtab, t.relas, t.shstrtab, t.name_offs).offset(
            c.sections.len() + 2 + i,
        ),
{
    let p = parts_of(c, t.symtab, t.relas, t.shstrtab, t.name_offs);
    let n = c.sections.len() as int;
    let rela = t.relas.entries;
    lemma_part_offsets(c, t);
    lemma_rela_len(p, rela, i);
    let rest = lemma_rela_split(rela, rela.len() as int, i);
    let pre = ehdr_bytes(t.ehdr) + code_bytes(c.sections, n) + t.symtab.strtab + symtab_bytes(
        t.symtab.rows,
        t.symtab.rows.len() as int,
    ) + rela_table_bytes(rela, i);
    let post = rest + t.shstrtab + shdr_table_bytes(t.headers, t.headers.len() as int);
    assert(object_bytes(c, t) =~= pre + rela_list_bytes(rela[i], rela[i].len() as int) + post);
    (pre, post)
}

/// The file as three parts around one of the three tables: the string
/// table, the symbol table or the section-name string table.
pub(crate) proof fn lemma_file_split_table(c: ContextView, t: Tables, k: int) -> (parts: (
    Seq<u8>,
    Seq<u8>,
))
    requires
        t.relas.entries.len() == t.relas.targets.len(),
        k == c.sections.len() || k == c.sections.len() + 1 || k == c.sections.len()
            + t.relas.targets.len() + 2,
    ensures
        object_bytes(c, t) == parts.0 + section_content(c, t, k) + parts.1,
        parts.0.len() == parts_of(c, t.symtab, t.relas, t.shstrtab, t.name_offs).offset(k),
{
    let n = c.sections.len() as int;
    let e = ehdr_bytes(t.ehdr);
    let code = code_bytes(c.sections, n);
    let strtab = t.symtab.strtab;
    let syms = symtab_bytes(t.symtab.rows, t.symtab.rows.len() as int);
    let relas = rela_table_bytes(t.relas.entries, t.relas.entries.len() as int);
    let table = shdr_table_bytes(t.headers, t.headers.len() as int);
    lemma_part_offsets(c, t);
    if k == n {
        let pre = e + code;
        let post = syms + relas + t.shstrtab + table;
        assert(object_bytes(c, t) =~= pre + strtab + post);
        (pre, post)
    } else if k == n + 1 {
        let pre = e + code + strtab;
        let post = relas + t.shstrtab + table;
        assert(object_bytes(c, t) =~= pre + syms + post);
        (pre, post)
    } else {
        let pre = e + code + strtab + syms + relas;
        assert(object_bytes(c, t) =~= pre + t.shstrtab + table);
        (pre, table)
    }
}

/// The file as three parts: what stands before section `k`, the
/// section's contents, and what follows. The first part ends at the
/// section's offset.
pub(crate) proof fn lemma_file_split(c: ContextView, t: Tables, k: int) -> (parts: (
    Seq<u8>,
    Seq<u8>,
))
    requires
        t.relas.entries.len() == t.relas.targets.len(),
        0 <= k < c.sections.len() + t.relas.targets.len() + 3,
    ensures
        object_bytes(c, t) == parts.0 + section_content(c, t, k) + parts.1,
        parts.0.len() == parts_of(c, t.symtab, t.relas, t.shstrtab, t.name_offs).offset(k),
        section_content(c, t, k).len() == parts_of(
            c,
            t.symtab,
            t.relas,
            t.shstrtab,
            t.name_offs,
        ).size(k),
{
    let n = c.sections.len() as int;
    let m = t.relas.targets.len() as int;
    if k < n {
        lemma_file_split_code(c, t, k)
    } else if n + 2 <= k < n + 2 + m {
        lemma_rela_list_bytes_len(t.relas.entries[k - n - 2], t.relas.entries[k - n - 2].len() as int);
        lemma_file_split_rela(c, t, k - n - 2)
    } else {
        lemma_symtab_bytes_len(t.symtab.rows, t.symtab.rows.len() as int);
        lemma_file_split_table(c, t, k)
    }
}

/// File layout. In an object file whose headers were built for its
/// tables, every section lies where its header says: the bytes of the
/// file from `sh_offset` on, `sh_size` of them, are the section's
/// contents. The section header table lies at `e_shoff` and ends the
/// file.
pub proof fn lemma_sections_lie_at_their_offsets(c: ContextView, t: Tables, k: int)
    requires
        parts_of(c, t.symtab, t.relas, t.shstrtab, t.name_offs).headers() == Ok::<
            (Seq<Elf64Shdr>, Elf64Ehdr),
            ErrorKind,
        >((t.headers, t.ehdr)),
        t.relas.entries.len() == t.relas.targets.len(),
        0 <= k < c.sections.len() + t.relas.targets.len() + 3,
    ensures
        ({
            let file = object_bytes(c, t);
            let h = t.headers[k + 1];
            &&& h.sh_size == section_content(c, t, k).len()
            &&& h.sh_offset + h.sh_size <= t.ehdr.e_shoff
            &&& file.subrange(h.sh_offset as int, h.sh_offset + h.sh_size) == section_content(
                c,
                t,
                k,
            )
            &&& file.len() == t.ehdr.e_shoff + SHDR_SIZE * t.headers.len()
            &&& file.subrange(t.ehdr.e_shoff as int, file.len() as int) == shdr_table_bytes(
                t.headers,
                t.headers.len() as int,
            )
        }),
{
    let p = parts_of(c, t.symtab, t.relas, t.shstrtab, t.name_offs);
    let file = object_bytes(c, t);
    let table = shdr_table_bytes(t.headers, t.headers.len() as int);
    lemma_sizes_nonnegative(c, t);
    lemma_header_fields(p, t.headers, t.ehdr, k);
    lemma_shdr_table_bytes_len(t.headers, t.headers.len() as int);
    let (pre, post) = lemma_file_split(c, t, k);
    lemma_middle(pre, section_content(c, t, k), post);
    let head = lemma_file_end(c, t);
    assert(file.subrange(t.ehdr.e_shoff as int, file.len() as int) =~= table);
}

/// No section has a negative size.
pub(crate) proof fn lemma_sizes_nonnegative(c: ContextView, t: Tables)
    requires
        t.relas.entries.len() == t.relas.targets.len(),
    ensures
        ({
            let p = parts_of(c, t.symtab, t.relas, t.shstrtab, t.name_offs);
            &&& p.rela_lens.len() == p.targets.len()
            &&& forall|i: int| 0 <= i < p.rela_lens.len() ==> p.rela_lens[i] >= 0
            &&& p.strtab_len >= 0
            &&& p.rows >= 0
            &&& p.shstrtab_len >= 0
        }),
{
}

/// Sections lie one behind the other: a later section starts no
/// earlier than an earlier one ends.
pub(crate) proof fn lemma_offsets_grow(p: Parts, j: int, k: int)
    requires
        0 <= j <= k,
        p.rela_lens.len() == p.targets.len(),
        forall|i: int| 0 <= i < p.rela_lens.len() ==> p.rela_lens[i] >= 0,
        p.strtab_len >= 0,
        p.rows >= 0,
        p.shstrtab_len >= 0,
    ensures
        p.offset(j) <= p.offset(k),
        p.size(k) >= 0,
        j < k ==> p.offset(j) + p.size(j) <= p.offset(k),
    decreases k - j,
{
    if j < k {
        lemma_offsets_grow(p, j, k - 1);
        lemma_offsets_grow(p, k - 1, k - 1);
    }
}

/// The binding that a symbol-table row records.
pub open spec fn binding_of(row: Elf64Sym) -> int {
    row.st_info as int / 16
}

/// Whether the first `t.locals` rows, and no others, have local binding,
/// and all others global binding.
pub open spec fn locals_first(t: SymTables) -> bool {
    &&& 1 <= t.locals <= t.rows.len()
    &&& forall|i: int| 0 <= i < t.locals ==> binding_of(#[trigger] t.rows[i]) == STB_LOCAL
    &&& forall|i: int|
        t.locals <= i < t.rows.len() ==> binding_of(#[trigger] t.rows[i]) == STB_GLOBAL
}

/// A pass over the symbols keeps the local rows in front: the pass for
/// local symbols when no global row exists yet, the pass for global
/// symbols always.
pub(crate) proof fn lemma_add_symbols_order(
    t0: SymTables,
    c: ContextView,
    binding: u8,
    keep_locals: bool,
    n: int,
)
    requires
        locals_first(t0),
        binding == STB_GLOBAL || (binding == STB_LOCAL && t0.locals == t0.rows.len()),
    ensures
        match add_symbols(Ok(t0), c, binding, keep_locals, n) {
            Ok(t) => locals_first(t) && (binding == STB_LOCAL ==> t.locals == t.rows.len()) && (
            binding == STB_GLOBAL ==> t.locals == t0.locals),
            Err(_) => true,
        },
    decreases n,
{
    if n > 0 {
        lemma_add_symbols_order(t0, c, binding, keep_locals, n - 1);
        match add_symbols(Ok(t0), c, binding, keep_locals, n - 1) {
            Ok(prev) => {
                let sym = c.symbols[n - 1];
                if !skips_symbol(sym, binding, keep_locals) {
                    match section_names(c.sections).index_of_first(sym.section) {
                        Some(i) => {
                            let next = add_symbol(prev, sym, i + 1);
                            let row = symbol_row(sym, i + 1, prev.strtab.len() as int);
                            assert(sym.binding == binding);
                            assert(binding_of(row) == binding) by {
                                let ty = sym.symbol_type as int % 16;
                                assert(row.st_info == binding * 16 + ty);
                            }
                            assert forall|j: int| 0 <= j < next.locals implies binding_of(
                                #[trigger] next.rows[j],
                            ) == STB_LOCAL by {
                                if j < prev.rows.len() {
                                    assert(next.rows[j] == prev.rows[j]);
                                }
                            }
                            assert forall|j: int| next.locals <= j < next.rows.len() implies binding_of(
                                #[trigger] next.rows[j],
                            ) == STB_GLOBAL by {
                                if j < prev.rows.len() {
                                    assert(next.rows[j] == prev.rows[j]);
                                }
                            }
                        },
                        None => {},
                    }
                }
            },
            Err(_) => {},
        }
    }
}

/// Rows for undefined names come after the local rows and are global.
pub(crate) proof fn lemma_add_undefined_order(t0: SymTables, undefined: Seq<Seq<char>>, n: int)
    requires
        locals_first(t0),
    ensures
        match add_undefined(Ok(t0), undefined, n) {
            Ok(t) => locals_first(t) && t.locals == t0.locals,
            Err(_) => true,
        },
    decreases n,
{
    if n > 0 {
        lemma_add_undefined_order(t0, undefined, n - 1);
        match add_undefined(Ok(t0), undefined, n - 1) {
            Ok(prev) => {
                let row = undefined_row(prev.strtab.len() as int);
                let rows = prev.rows.push(row);
                assert(binding_of(row) == STB_GLOBAL);
                assert forall|j: int| 0 <= j < prev.locals implies binding_of(#[trigger] rows[j])
                    == STB_LOCAL by {
                    assert(rows[j] == prev.rows[j]);
                }
                assert forall|j: int| prev.locals <= j < rows.len() implies binding_of(
                    #[trigger] rows[j],
                ) == STB_GLOBAL by {
                    if j < prev.rows.len() {
                        assert(rows[j] == prev.rows[j]);
                    }
                }
            },
            Err(_) => {},
        }
    }
}

/// In a finished symbol table the local rows come first: the rows before
/// `locals` all have local binding, the rows from `locals` on all have
/// global binding. So `locals` is the number of rows before the first
/// global one.
pub proof fn lemma_locals_precede_globals(
    c: ContextView,
    keep_locals: bool,
    undefined: Seq<Seq<char>>,
)
    ensures
        match spec_symtab(c, keep_locals, undefined) {
            Ok(t) => locals_first(t),
            Err(_) => true,
        },
{
    let n = c.symbols.len() as int;
    let u = undefined.len() as int;
    let t1 = add_symbols(Ok(symtab_null()), c, STB_LOCAL, keep_locals, n);
    assert(binding_of(symtab_null().rows[0]) == STB_LOCAL);
    lemma_add_symbols_order(symtab_null(), c, STB_LOCAL, keep_locals, n);
    match t1 {
        Ok(a) => {
            lemma_add_undefined_order(a, undefined, u);
            match add_undefined(t1, undefined, u) {
                Ok(b) => {
                    lemma_add_symbols_order(b, c, STB_GLOBAL, keep_locals, n);
                },
                Err(_) => {
                    lemma_add_symbols_err(add_undefined(t1, undefined, u), c, STB_GLOBAL, keep_locals, 0, n);
                },
            }
        },
        Err(_) => {
            lemma_add_undefined_err(t1, undefined, 0, u);
            lemma_add_symbols_err(add_undefined(t1, undefined, u), c, STB_GLOBAL, keep_locals, 0, n);
        },
    }
}

/// The header of `.symtab` tells how many rows precede the first global
/// one: in a writer whose symbol table and headers were built, the
/// header at index `sections + 2` is that of `.symtab`, every row before
/// `sh_info` is local, and every row from `sh_info` on is global.
pub proof fn lemma_sh_info_counts_locals(e: Elf, undefined: Seq<Seq<char>>)
    requires
        spec_symtab(e.ctx@, e.keep_locals, undefined) == Ok::<SymTables, ErrorKind>(e.sym_tables()),
        e.parts().headers() == Ok::<(Seq<Elf64Shdr>, Elf64Ehdr), ErrorKind>(
            (e.section_headers@, e.ehdr),
        ),
    ensures
        ({
            let h = e.section_headers@[e.ctx@.sections.len() as int + 2];
            &&& h.sh_type == SHT_SYMTAB
            &&& h.sh_info <= e.symtab@.len()
            &&& forall|i: int| 0 <= i < h.sh_info ==> binding_of(#[trigger] e.symtab@[i]) == STB_LOCAL
            &&& forall|i: int|
                h.sh_info <= i < e.symtab@.len() ==> binding_of(#[trigger] e.symtab@[i])
                    == STB_GLOBAL
        }),
{
    lemma_locals_precede_globals(e.ctx@, e.keep_locals, undefined);
    let p = e.parts();
    p.lemma_headers_upto(p.count());
    let n = e.ctx@.sections.len() as int;
    assert(p.header(n + 1) == Ok::<Elf64Shdr, ErrorKind>(e.section_headers@[n + 2]));
}

/// Whether a string table holds `name` at `off`, closed by a zero byte.
pub open spec fn name_at(table: Seq<u8>, off: int, name: Seq<char>) -> bool {
    let text = encode_utf8(name);
    &&& 0 <= off
    &&& off + text.len() < table.len()
    &&& table.subrange(off, off + text.len()) == text
    &&& table[off + text.len()] == 0
}

/// A name stays where it is when the table grows.
pub(crate) proof fn lemma_name_stays(table: Seq<u8>, more: Seq<u8>, off: int, name: Seq<char>)
    requires
        name_at(table, off, name),
    ensures
        name_at(table + more, off, name),
{
    let text = encode_utf8(name);
    assert((table + more).subrange(off, off + text.len()) =~= table.subrange(
        off,
        off + text.len(),
    ));
}

/// A name that is appended to a table stands at the table's old end.
pub(crate) proof fn lemma_name_appended(table: Seq<u8>, name: Seq<char>)
    ensures
        name_at(table + encode_utf8(name) + seq![0u8], table.len() as int, name),
{
    let text = encode_utf8(name);
    let grown = table + text + seq![0u8];
    assert(grown.subrange(table.len() as int, (table.len() + text.len()) as int) =~= text);
}

/// Whether every name of the first `n` stands in the table at the end
/// of the table of the names before it.
pub open spec fn names_in_place(table: Seq<u8>, names: Seq<Seq<char>>, n: int) -> bool {
    forall|k: int| 0 <= k < n ==> name_at(table, #[trigger] name_table(names, k).len() as int, names[k])
}

/// In a name table every name stands at the end of the table of the
/// names before it.
pub(crate) proof fn lemma_name_table_places(names: Seq<Seq<char>>, n: int)
    requires
        0 <= n <= names.len(),
    ensures
        names_in_place(name_table(names, n), names, n),
    decreases n,
{
    if n > 0 {
        lemma_name_table_places(names, n - 1);
        let before = name_table(names, n - 1);
        let more = encode_utf8(names[n - 1]) + seq![0u8];
        assert(name_table(names, n) =~= before + more);
        assert forall|k: int| 0 <= k < n implies name_at(
            name_table(names, n),
            #[trigger] name_table(names, k).len() as int,
            names[k],
        ) by {
            if k < n - 1 {
                lemma_name_stays(before, more, name_table(names, k).len() as int, names[k]);
            } else {
                lemma_name_appended(before, names[n - 1]);
                assert(before + encode_utf8(names[n - 1]) + seq![0u8] =~= before + more);
            }
        }
    }
}

/// Section names. In the section-name string table, every name stands
/// at the offset that is recorded for it, closed by a zero byte.
pub proof fn lemma_section_names_at_their_offsets(
    c: ContextView,
    targets: Seq<Seq<char>>,
    k: int,
)
    requires
        0 <= k < shstr_names(c, targets).len(),
    ensures
        spec_shstrtab(c, targets) matches Ok((table, offs)) ==> name_at(
            table,
            offs[k] as int,
            shstr_names(c, targets)[k],
        ),
{
    let names = shstr_names(c, targets);
    let full = name_table(names, names.len() as int);
    if full.len() <= TABLE_LIMIT {
        lemma_name_table_places(names, names.len() as int);
        crate::elf::tables::lemma_name_table_grows(names, k, names.len() as int);
        let off = name_table(names, k).len() as int;
        assert(name_at(full, off, names[k]));
        lemma_name_stays(
            full,
            Seq::new(
                (crate::layout::spec_align_to(full.len(), 16) - full.len()) as nat,
                |i: int| 0u8,
            ),
            off,
            names[k],
        );
    }
}

/// Whether every row but the null row tells where its name stands in
/// the string table; the row of a section symbol may tell 0 instead.
pub open spec fn rows_name_themselves(t: SymTables) -> bool {
    &&& t.names.len() == t.rows.len()
    &&& 0 < t.strtab.len() <= TABLE_LIMIT
    &&& forall|i: int|
        1 <= i < t.rows.len() ==> (#[trigger] t.rows[i]).st_name == 0 || name_at(
            t.strtab,
            t.rows[i].st_name as int,
            t.names[i],
        )
}

/// A pass over the symbols keeps the names where the rows say.
pub(crate) proof fn lemma_add_symbols_names(
    t0: SymTables,
    c: ContextView,
    binding: u8,
    keep_locals: bool,
    n: int,
)
    requires
        rows_name_themselves(t0),
    ensures
        add_symbols(Ok(t0), c, binding, keep_locals, n) matches Ok(t) ==> rows_name_themselves(t),
    decreases n,
{
    if n > 0 {
        lemma_add_symbols_names(t0, c, binding, keep_locals, n - 1);
        if let Ok(prev) = add_symbols(Ok(t0), c, binding, keep_locals, n - 1) {
            let sym = c.symbols[n - 1];
            if !skips_symbol(sym, binding, keep_locals) {
                if let Some(i) = section_names(c.sections).index_of_first(sym.section) {
                    let next = add_symbol(prev, sym, i + 1);
                    if next.strtab.len() <= TABLE_LIMIT {
                        lemma_rows_named_after(prev, next, sym.symbol_name);
                    }
                }
            }
        }
    }
}

/// Appending a row whose name goes to the end of the string table
/// keeps the names where the rows say.
pub(crate) proof fn lemma_rows_named_after(prev: SymTables, next: SymTables, name: Seq<char>)
    requires
        rows_name_themselves(prev),
        next.names == prev.names.push(name),
        next.rows.len() == prev.rows.len() + 1,
        forall|i: int| 0 <= i < prev.rows.len() ==> next.rows[i] == prev.rows[i],
        next.rows[prev.rows.len() as int].st_name == 0 || next.rows[prev.rows.len() as int].st_name
            == prev.strtab.len(),
        next.strtab == prev.strtab + encode_utf8(name) + seq![0u8],
        next.strtab.len() <= TABLE_LIMIT,
    ensures
        rows_name_themselves(next),
{
    let more = encode_utf8(name) + seq![0u8];
    assert(next.strtab =~= prev.strtab + more);
    assert forall|i: int| 1 <= i < next.rows.len() implies (#[trigger] next.rows[i]).st_name == 0
        || name_at(next.strtab, next.rows[i].st_name as int, next.names[i]) by {
        if i < prev.rows.len() {
            assert(next.rows[i] == prev.rows[i]);
            if prev.rows[i].st_name != 0 {
                lemma_name_stays(prev.strtab, more, prev.rows[i].st_name as int, prev.names[i]);
            }
        } else {
            lemma_name_appended(prev.strtab, name);
        }
    }
}

/// Rows for undefined names keep the names where the rows say.
pub(crate) proof fn lemma_add_undefined_names(t0: SymTables, undefined: Seq<Seq<char>>, n: int)
    requires
        rows_name_themselves(t0),
    ensures
        add_undefined(Ok(t0), undefined, n) matches Ok(t) ==> rows_name_themselves(t),
    decreases n,
{
    if n > 0 {
        lemma_add_undefined_names(t0, undefined, n - 1);
        if let Ok(prev) = add_undefined(Ok(t0), undefined, n - 1) {
            let name = undefined[n - 1];
            let next = SymTables {
                names: prev.names.push(name),
                rows: prev.rows.push(undefined_row(prev.strtab.len() as int)),
                strtab: prev.strtab + encode_utf8(name) + seq![0u8],
                locals: prev.locals,
            };
            if next.strtab.len() <= TABLE_LIMIT {
                lemma_rows_named_after(prev, next, name);
            }
        }
    }
}

/// Symbol names. In a finished symbol table, every row but the null
/// row tells in `st_name` where its name stands in the string table,
/// closed by a zero byte; only the row of a section symbol may tell 0
/// instead.
pub proof fn lemma_symbol_names_at_their_offsets(
    c: ContextView,
    keep_locals: bool,
    undefined: Seq<Seq<char>>,
)
    ensures
        spec_symtab(c, keep_locals, undefined) matches Ok(t) ==> {
            &&& t.names.len() == t.rows.len()
            &&& forall|i: int|
                1 <= i < t.rows.len() ==> (#[trigger] t.rows[i]).st_name == 0 || name_at(
                    t.strtab,
                    t.rows[i].st_name as int,
                    t.names[i],
                )
        },
{
    let n = c.symbols.len() as int;
    let u = undefined.len() as int;
    let t1 = add_symbols(Ok(symtab_null()), c, STB_LOCAL, keep_locals, n);
    lemma_add_symbols_names(symtab_null(), c, STB_LOCAL, keep_locals, n);
    match t1 {
        Ok(a) => {
            lemma_add_undefined_names(a, undefined, u);
            match add_undefined(t1, undefined, u) {
                Ok(b) => {
                    lemma_add_symbols_names(b, c, STB_GLOBAL, keep_locals, n);
                    if let Ok(t) = add_symbols(Ok(b), c, STB_GLOBAL, keep_locals, n) {
                        let padded = pad16(t.strtab);
                        assert forall|i: int| 1 <= i < t.rows.len() implies (#[trigger] t.rows[i]).st_name
                            == 0 || name_at(padded, t.rows[i].st_name as int, t.names[i]) by {
                            if t.rows[i].st_name != 0 {
                                lemma_name_stays(
                                    t.strtab,
                                    Seq::new(
                                        (crate::layout::spec_align_to(t.strtab.len(), 16)
                                            - t.strtab.len()) as nat,
                                        |i: int| 0u8,
                                    ),
                                    t.rows[i].st_name as int,
                                    t.names[i],
                                );
                            }
                        }
                    }
                },
                Err(_) => {
                    lemma_add_symbols_err(add_undefined(t1, undefined, u), c, STB_GLOBAL, keep_locals, 0, n);
                },
            }
        },
        Err(_) => {
            lemma_add_undefined_err(t1, undefined, 0, u);
            lemma_add_symbols_err(add_undefined(t1, undefined, u), c, STB_GLOBAL, keep_locals, 0, n);
        },
    }
}

/// Whether a row is the row of the defined symbol `sym` under the name
/// `name`: it carries the symbol's name, binding, type, visibility and
/// address, the header index of the symbol's section, and the place of
/// its name in the string table, which is 0 for a section symbol.
pub open spec fn row_describes(
    row: Elf64Sym,
    name: Seq<char>,
    strtab: Seq<u8>,
    sym: InstrView,
    c: ContextView,
) -> bool {
    &&& name == sym.symbol_name
    &&& binding_of(row) == sym.binding
    &&& row.st_info as int % 16 == sym.symbol_type % 16
    &&& row.st_other == sym.visibility
    &&& row.st_value == sym.addr
    &&& row.st_size == 0
    &&& section_names(c.sections).index_of_first(sym.section) == Some(row.st_shndx as int - 1)
    &&& if sym.symbol_type == STT_SECTION {
        row.st_name == 0
    } else {
        name_at(strtab, row.st_name as int, name)
    }
}

/// Whether a row is the synthesized row of the undefined name `name`:
/// global binding, no type, no section, value and size zero, and the
/// place of the name in the string table.
pub open spec fn row_is_undefined(row: Elf64Sym, row_name: Seq<char>, strtab: Seq<u8>, name: Seq<char>) -> bool {
    &&& row_name == name
    &&& row.st_info == 0x10
    &&& row.st_other == 0
    &&& row.st_shndx == 0
    &&& row.st_value == 0
    &&& row.st_size == 0
    &&& name_at(strtab, row.st_name as int, name)
}

/// Whether the tables `t` are the tables `t0` with rows appended: the
/// rows, names and string bytes of `t0` stand unchanged in front, and
/// `added` rows and names follow.
pub open spec fn tables_grown(t0: SymTables, t: SymTables, added: int) -> bool {
    &&& t.rows.len() == t0.rows.len() + added
    &&& t.names.len() == t0.names.len() + added
    &&& t0.strtab.len() <= t.strtab.len() <= TABLE_LIMIT
    &&& t.strtab.subrange(0, t0.strtab.len() as int) == t0.strtab
    &&& forall|i: int| 0 <= i < t0.rows.len() ==> #[trigger] t.rows[i] == t0.rows[i]
    &&& forall|i: int| 0 <= i < t0.names.len() ==> #[trigger] t.names[i] == t0.names[i]
}

/// Whether, behind the rows of `t0`, `t` holds the rows of the symbols
/// `kept`, one each, in order.
pub open spec fn symbols_appended(
    t0: SymTables,
    t: SymTables,
    kept: Seq<InstrView>,
    c: ContextView,
) -> bool {
    &&& tables_grown(t0, t, kept.len() as int)
    &&& forall|j: int|
        0 <= j < kept.len() ==> row_describes(
            #[trigger] t.rows[t0.rows.len() + j],
            t.names[t0.names.len() + j],
            t.strtab,
            kept[j],
            c,
        )
}

/// Whether, behind the rows of `t0`, `t` holds the synthesized rows of
/// the first `n` undefined names, one each, in order.
pub open spec fn undefined_appended(
    t0: SymTables,
    t: SymTables,
    undefined: Seq<Seq<char>>,
    n: int,
) -> bool {
    &&& tables_grown(t0, t, n)
    &&& forall|i: int|
        0 <= i < n ==> row_is_undefined(
            #[trigger] t.rows[t0.rows.len() + i],
            t.names[t0.names.len() + i],
            t.strtab,
            undefined[i],
        )
}

/// A row that describes a symbol goes on doing so when the string
/// table grows.
pub(crate) proof fn lemma_row_stays(
    row: Elf64Sym,
    name: Seq<char>,
    strtab: Seq<u8>,
    more: Seq<u8>,
    sym: InstrView,
    c: ContextView,
)
    requires
        row_describes(row, name, strtab, sym, c),
    ensures
        row_describes(row, name, strtab + more, sym, c),
{
    if sym.symbol_type != STT_SECTION {
        lemma_name_stays(strtab, more, row.st_name as int, name);
    }
}

/// The symbols that get a row are those that the pass does not skip:
/// every kept symbol has the binding of the pass and, where local
/// labels are not kept, a local one carries no local-label marker; and
/// every symbol that is not skipped is kept.
pub proof fn lemma_kept_symbols(c: ContextView, binding: u8, keep_locals: bool, n: int)
    requires
        0 <= n <= c.symbols.len(),
    ensures
        forall|j: int|
            0 <= j < kept_symbols(c, binding, keep_locals, n).len() ==> !skips_symbol(
                #[trigger] kept_symbols(c, binding, keep_locals, n)[j],
                binding,
                keep_locals,
            ),
        forall|i: int|
            0 <= i < n && !skips_symbol(#[trigger] c.symbols[i], binding, keep_locals)
                ==> kept_symbols(c, binding, keep_locals, n).contains(c.symbols[i]),
        kept_symbols(c, binding, keep_locals, n).len() <= n,
    decreases n,
{
    if n > 0 {
        lemma_kept_symbols(c, binding, keep_locals, n - 1);
        let before = kept_symbols(c, binding, keep_locals, n - 1);
        let now = kept_symbols(c, binding, keep_locals, n);
        let sym = c.symbols[n - 1];
        assert forall|i: int|
            0 <= i < n && !skips_symbol(#[trigger] c.symbols[i], binding, keep_locals) implies now.contains(
            c.symbols[i],
        ) by {
            if i < n - 1 {
                let w = choose|w: int| 0 <= w < before.len() && before[w] == c.symbols[i];
                assert(now[w] == c.symbols[i]);
            } else {
                assert(now[before.len() as int] == sym);
            }
        }
    }
}

/// Rows of defined symbols. A pass over the first `n` symbols appends
/// exactly one row for each symbol it keeps, in the order of the symbol
/// table, and nothing for a symbol it skips; the pass for local symbols
/// raises the count of local rows by the number of rows it appends.
pub proof fn lemma_symbol_rows(
    t0: SymTables,
    c: ContextView,
    binding: u8,
    keep_locals: bool,
    n: int,
)
    requires
        binding == STB_LOCAL || binding == STB_GLOBAL,
        t0.strtab.len() <= TABLE_LIMIT,
    ensures
        add_symbols(Ok(t0), c, binding, keep_locals, n) matches Ok(t) ==> {
            let kept = kept_symbols(c, binding, keep_locals, n);
            &&& symbols_appended(t0, t, kept, c)
            &&& t.locals == t0.locals + (if binding == STB_LOCAL {
                kept.len() as int
            } else {
                0
            })
        },
    decreases n,
{
    if n <= 0 {
        assert(t0.strtab.subrange(0, t0.strtab.len() as int) =~= t0.strtab);
    } else {
        lemma_symbol_rows(t0, c, binding, keep_locals, n - 1);
        if let Ok(prev) = add_symbols(Ok(t0), c, binding, keep_locals, n - 1) {
            let before = kept_symbols(c, binding, keep_locals, n - 1);
            let sym = c.symbols[n - 1];
            if !skips_symbol(sym, binding, keep_locals) {
                if let Some(i) = section_names(c.sections).index_of_first(sym.section) {
                    let next = add_symbol(prev, sym, i + 1);
                    if i + 1 <= 0xffff && next.strtab.len() <= TABLE_LIMIT {
                        let kept = before.push(sym);
                        let more = encode_utf8(sym.symbol_name) + seq![0u8];
                        let row = symbol_row(sym, i + 1, prev.strtab.len() as int);
                        assert(next.strtab =~= prev.strtab + more);
                        assert(next.strtab.subrange(0, t0.strtab.len() as int)
                            =~= prev.strtab.subrange(0, t0.strtab.len() as int));
                        section_names(c.sections).index_of_first_ensures(sym.section);
                        assert(row.st_info == binding * 16 + sym.symbol_type as int % 16);
                        lemma_name_appended(prev.strtab, sym.symbol_name);
                        assert(prev.strtab + encode_utf8(sym.symbol_name) + seq![0u8]
                            =~= prev.strtab + more);
                        assert(row_describes(row, sym.symbol_name, next.strtab, sym, c));
                        assert forall|j: int| 0 <= j < kept.len() implies row_describes(
                            #[trigger] next.rows[t0.rows.len() + j],
                            next.names[t0.names.len() + j],
                            next.strtab,
                            kept[j],
                            c,
                        ) by {
                            if j < before.len() {
                                assert(next.rows[t0.rows.len() + j] == prev.rows[t0.rows.len() + j]);
                                assert(next.names[t0.names.len() + j] == prev.names[t0.names.len()
                                    + j]);
                                lemma_row_stays(
                                    prev.rows[t0.rows.len() + j],
                                    prev.names[t0.names.len() + j],
                                    prev.strtab,
                                    more,
                                    before[j],
                                    c,
                                );
                            }
                        }
                        assert forall|k: int| 0 <= k < t0.rows.len() implies #[trigger] next.rows[k]
                            == t0.rows[k] by {
                            assert(prev.rows[k] == t0.rows[k]);
                        }
                        assert forall|k: int| 0 <= k < t0.names.len() implies #[trigger] next.names[k]
                            == t0.names[k] by {
                            assert(prev.names[k] == t0.names[k]);
                        }
                    }
                }
            }
        }
    }
}

/// Rows of undefined names. Each of the first `n` undefined names gets
/// exactly one synthesized row, in order: global binding, no type, no
/// section, value zero, and its name in the string table. The count of
/// local rows stays.
pub proof fn lemma_undefined_rows(t0: SymTables, undefined: Seq<Seq<char>>, n: int)
    requires
        0 <= n,
        t0.strtab.len() <= TABLE_LIMIT,
    ensures
        add_undefined(Ok(t0), undefined, n) matches Ok(t) ==> undefined_appended(
            t0,
            t,
            undefined,
            n,
        ) && t.locals == t0.locals,
    decreases n,
{
    if n <= 0 {
        assert(t0.strtab.subrange(0, t0.strtab.len() as int) =~= t0.strtab);
    } else {
        lemma_undefined_rows(t0, undefined, n - 1);
        if let Ok(prev) = add_undefined(Ok(t0), undefined, n - 1) {
            let name = undefined[n - 1];
            let more = encode_utf8(name) + seq![0u8];
            let row = undefined_row(prev.strtab.len() as int);
            let next = SymTables {
                names: prev.names.push(name),
                rows: prev.rows.push(row),
                strtab: prev.strtab + encode_utf8(name) + seq![0u8],
                locals: prev.locals,
            };
            if next.strtab.len() <= TABLE_LIMIT {
                assert(next.strtab =~= prev.strtab + more);
                assert(next.strtab.subrange(0, t0.strtab.len() as int) =~= prev.strtab.subrange(
                    0,
                    t0.strtab.len() as int,
                ));
                lemma_name_appended(prev.strtab, name);
                assert(row_is_undefined(row, name, next.strtab, name));
                assert forall|i: int| 0 <= i < n implies row_is_undefined(
                    #[trigger] next.rows[t0.rows.len() + i],
                    next.names[t0.names.len() + i],
                    next.strtab,
                    undefined[i],
                ) by {
                    if i < n - 1 {
                        assert(next.rows[t0.rows.len() + i] == prev.rows[t0.rows.len() + i]);
                        assert(next.names[t0.names.len() + i] == prev.names[t0.names.len() + i]);
                        lemma_name_stays(
                            prev.strtab,
                            more,
                            prev.rows[t0.rows.len() + i].st_name as int,
                            undefined[i],
                        );
                    }
                }
                assert forall|k: int| 0 <= k < t0.rows.len() implies #[trigger] next.rows[k]
                    == t0.rows[k] by {
                    assert(prev.rows[k] == t0.rows[k]);
                }
                assert forall|k: int| 0 <= k < t0.names.len() implies #[trigger] next.names[k]
                    == t0.names[k] by {
                    assert(prev.names[k] == t0.names[k]);
                }
            }
        }
    }
}

/// A name stays where it is in every table that begins with this one.
pub(crate) proof fn lemma_name_stays_in_longer(
    table: Seq<u8>,
    longer: Seq<u8>,
    off: int,
    name: Seq<char>,
)
    requires
        name_at(table, off, name),
        table.len() <= longer.len(),
        longer.subrange(0, table.len() as int) == table,
    ensures
        name_at(longer, off, name),
{
    let more = longer.subrange(table.len() as int, longer.len() as int);
    assert(longer =~= table + more);
    lemma_name_stays(table, more, off, name);
}

/// A table that begins with a table that begins with a third begins
/// with the third.
pub(crate) proof fn lemma_prefix_of_prefix(a: Seq<u8>, b: Seq<u8>, c: Seq<u8>)
    requires
        a.len() <= b.len() <= c.len(),
        b.subrange(0, a.len() as int) == a,
        c.subrange(0, b.len() as int) == b,
    ensures
        c.subrange(0, a.len() as int) == a,
{
    assert forall|i: int| 0 <= i < a.len() implies c[i] == a[i] by {
        assert(b.subrange(0, a.len() as int)[i] == b[i]);
        assert(c.subrange(0, b.len() as int)[i] == c[i]);
    }
    assert(c.subrange(0, a.len() as int) =~= a);
}

/// The rows of a finished symbol table. The table holds, in this
/// order: the null row; one row for each local symbol, where local
/// labels are not kept only for those without the local-label marker;
/// one synthesized row, global and without type or section, for each
/// undefined name; one row for each global symbol. Nothing else stands
/// in it, the count of local rows is one more than the number of local
/// symbols with a row, and every row's name stands in the string table.
pub proof fn lemma_symtab_layout(c: ContextView, keep_locals: bool, undefined: Seq<Seq<char>>)
    ensures
        spec_symtab(c, keep_locals, undefined) matches Ok(t) ==> {
            let n = c.symbols.len() as int;
            let locals = kept_symbols(c, STB_LOCAL, keep_locals, n);
            let globals = kept_symbols(c, STB_GLOBAL, keep_locals, n);
            let l = locals.len() as int;
            let u = undefined.len() as int;
            &&& t.rows.len() == 1 + l + u + globals.len()
            &&& t.names.len() == t.rows.len()
            &&& t.locals == 1 + l
            &&& t.rows[0] == symtab_null().rows[0]
            &&& t.names[0] == Seq::<char>::empty()
            &&& forall|j: int|
                0 <= j < l ==> row_describes(
                    #[trigger] t.rows[1 + j],
                    t.names[1 + j],
                    t.strtab,
                    locals[j],
                    c,
                )
            &&& forall|i: int|
                0 <= i < u ==> row_is_undefined(
                    #[trigger] t.rows[1 + l + i],
                    t.names[1 + l + i],
                    t.strtab,
                    undefined[i],
                )
            &&& forall|j: int|
                0 <= j < globals.len() ==> row_describes(
                    #[trigger] t.rows[1 + l + u + j],
                    t.names[1 + l + u + j],
                    t.strtab,
                    globals[j],
                    c,
                )
        },
{
    let n = c.symbols.len() as int;
    let u = undefined.len() as int;
    let null = symtab_null();
    let t1 = add_symbols(Ok(null), c, STB_LOCAL, keep_locals, n);
    lemma_symbol_rows(null, c, STB_LOCAL, keep_locals, n);
    match t1 {
        Ok(a) => {
            lemma_undefined_rows(a, undefined, u);
            match add_undefined(t1, undefined, u) {
                Ok(b) => {
                    lemma_symbol_rows(b, c, STB_GLOBAL, keep_locals, n);
                    if let Ok(g) = add_symbols(Ok(b), c, STB_GLOBAL, keep_locals, n) {
                        let locals = kept_symbols(c, STB_LOCAL, keep_locals, n);
                        let globals = kept_symbols(c, STB_GLOBAL, keep_locals, n);
                        let l = locals.len() as int;
                        let padded = pad16(g.strtab);
                        assert(padded.subrange(0, g.strtab.len() as int) =~= g.strtab);
                        lemma_prefix_of_prefix(b.strtab, g.strtab, padded);
                        lemma_prefix_of_prefix(a.strtab, b.strtab, padded);
                        assert(g.rows[0] == b.rows[0]);
                        assert(b.rows[0] == a.rows[0]);
                        assert(g.names[0] == b.names[0]);
                        assert(b.names[0] == a.names[0]);
                        assert forall|j: int| 0 <= j < l implies row_describes(
                            #[trigger] g.rows[1 + j],
                            g.names[1 + j],
                            padded,
                            locals[j],
                            c,
                        ) by {
                            assert(g.rows[1 + j] == b.rows[1 + j]);
                            assert(b.rows[1 + j] == a.rows[1 + j]);
                            assert(g.names[1 + j] == b.names[1 + j]);
                            assert(b.names[1 + j] == a.names[1 + j]);
                            assert(row_describes(
                                a.rows[null.rows.len() + j],
                                a.names[null.names.len() + j],
                                a.strtab,
                                locals[j],
                                c,
                            ));
                            if locals[j].symbol_type != STT_SECTION {
                                lemma_name_stays_in_longer(
                                    a.strtab,
                                    padded,
                                    a.rows[1 + j].st_name as int,
                                    a.names[1 + j],
                                );
                            }
                        }
                        assert forall|i: int| 0 <= i < u implies row_is_undefined(
                            #[trigger] g.rows[1 + l + i],
                            g.names[1 + l + i],
                            padded,
                            undefined[i],
                        ) by {
                            assert(g.rows[1 + l + i] == b.rows[1 + l + i]);
                            assert(g.names[1 + l + i] == b.names[1 + l + i]);
                            assert(row_is_undefined(
                                b.rows[a.rows.len() + i],
                                b.names[a.names.len() + i],
                                b.strtab,
                                undefined[i],
                            ));
                            lemma_name_stays_in_longer(
                                b.strtab,
                                padded,
                                b.rows[1 + l + i].st_name as int,
                                undefined[i],
                            );
                        }
                        assert forall|j: int| 0 <= j < globals.len() implies row_describes(
                            #[trigger] g.rows[1 + l + u + j],
                            g.names[1 + l + u + j],
                            padded,
                            globals[j],
                            c,
                        ) by {
                            assert(row_describes(
                                g.rows[b.rows.len() + j],
                                g.names[b.names.len() + j],
                                g.strtab,
                                globals[j],
                                c,
                            ));
                            if globals[j].symbol_type != STT_SECTION {
                                lemma_name_stays_in_longer(
                                    g.strtab,
                                    padded,
                                    g.rows[1 + l + u + j].st_name as int,
                                    g.names[1 + l + u + j],
                                );
                            }
                        }
                    }
                },
                Err(_) => {
                    lemma_add_symbols_err(add_undefined(t1, undefined, u), c, STB_GLOBAL, keep_locals, 0, n);
                },
            }
        },
        Err(_) => {
            lemma_add_undefined_err(t1, undefined, 0, u);
            lemma_add_symbols_err(add_undefined(t1, undefined, u), c, STB_GLOBAL, keep_locals, 0, n);
        },
    }
}

} // verus!
