use x86asm::assemble::{assemble, assemble_tokens};
use x86asm::elf::constants::{
    R_X86_64_32S, R_X86_64_64, R_X86_64_PC32, R_X86_64_PLT32, SHF_ALLOC, SHF_EXECINSTR,
    SHF_INFO_LINK, SHT_NULL, SHT_PROGBITS, SHT_RELA, SHT_STRTAB, SHT_SYMTAB, STB_GLOBAL,
    STB_LOCAL, STT_NOTYPE, STT_SECTION, STV_HIDDEN,
};
use x86asm::elf::elf64::{
    is_local_label, starts_with_local_marker, Elf, Elf64Rela, Elf64Shdr, Elf64Sym,
};
use x86asm::encoder::arch::x86_64::instructions::InstrKind;
use x86asm::encoder::statement::parse;
use x86asm::encoder::{Context, Instr, Rela, UserDefinedSection};
use x86asm::error::{AsmError, ErrorKind};
use x86asm::layout::{align_to, push_le};
use x86asm::lexer::{tokenize, Location};

fn context(source: &str) -> Context {
    let mut e = parse(tokenize(source).unwrap()).unwrap();
    e.assign_addresses().unwrap();
    e.into_context()
}

fn built(source: &str, keep_locals: bool) -> Elf {
    Elf::build(context(source), keep_locals).unwrap()
}

fn symbol(name: &str, section: &str, addr: usize, binding: u8) -> Instr {
    let mut i = Instr::new(InstrKind::Label, Location { line: 0, column: 0 });
    i.symbol_name = name.to_owned();
    i.section = section.to_owned();
    i.addr = addr;
    i.binding = binding;
    i
}

fn section_symbol(name: &str) -> Instr {
    let mut i = Instr::new(InstrKind::Section, Location { line: 0, column: 0 });
    i.symbol_name = name.to_owned();
    i.section = name.to_owned();
    i.symbol_type = STT_SECTION;
    i
}

fn section(name: &str, code: Vec<u8>) -> UserDefinedSection {
    let addr = code.len();
    UserDefinedSection {
        name: name.to_owned(),
        code,
        addr,
        flags: 0,
    }
}

fn rela(uses: &str, section: &str, addr: usize, rtype: u64, adjust: i32) -> Rela {
    let mut instr = Instr::new(InstrKind::Call, Location { line: 0, column: 0 });
    instr.code = vec![0xe8, 0, 0, 0, 0];
    instr.section = section.to_owned();
    instr.addr = addr;
    Rela {
        uses: uses.to_owned(),
        instr,
        offset: 1,
        rtype,
        adjust,
        is_already_resolved: false,
    }
}

fn u16_at(bytes: &[u8], at: usize) -> u16 {
    u16::from_le_bytes([bytes[at], bytes[at + 1]])
}

fn u32_at(bytes: &[u8], at: usize) -> u32 {
    u32::from_le_bytes([bytes[at], bytes[at + 1], bytes[at + 2], bytes[at + 3]])
}

fn u64_at(bytes: &[u8], at: usize) -> u64 {
    let mut b = [0u8; 8];
    b.copy_from_slice(&bytes[at..at + 8]);
    u64::from_le_bytes(b)
}

#[test]
fn align_to_rounds_up() {
    assert_eq!(align_to(0, 16), 0);
    assert_eq!(align_to(1, 16), 16);
    assert_eq!(align_to(16, 16), 16);
    assert_eq!(align_to(17, 16), 32);
    assert_eq!(align_to(33, 8), 40);
    assert_eq!(align_to(7, 1), 7);
}

#[test]
fn little_endian_fields() {
    let mut out = vec![0xaa];
    push_le(&mut out, 0x1122334455667788, 8);
    push_le(&mut out, 0x1122334455667788, 2);
    push_le(&mut out, 7, 0);
    push_le(&mut out, 0x0102, 4);
    assert_eq!(
        out,
        vec![0xaa, 0x88, 0x77, 0x66, 0x55, 0x44, 0x33, 0x22, 0x11, 0x88, 0x77, 0x02, 0x01, 0, 0]
    );
}

#[test]
fn local_label_marker() {
    assert!(is_local_label(&".Lfoo".to_owned()));
    assert!(is_local_label(&".l1".to_owned()));
    assert!(is_local_label(&".L".to_owned()));
    assert!(!is_local_label(&"Lfoo".to_owned()));
    assert!(!is_local_label(&".text".to_owned()));
    assert!(!is_local_label(&".".to_owned()));
    assert!(!is_local_label(&"".to_owned()));
    assert!(starts_with_local_marker(".LA"));
    assert!(!starts_with_local_marker(".la"));
    assert!(!starts_with_local_marker("."));
}

#[test]
fn new_writer_is_empty() {
    let ctx = context(".text\nret");
    let e = Elf::new(ctx.clone(), true);
    assert!(e.keep_locals);
    assert_eq!(e.ctx, ctx);
    assert!(e.symtab.is_empty() && e.strtab.is_empty() && e.shstrtab.is_empty());
    assert!(e.rela.is_empty() && e.rela_targets.is_empty() && e.rela_symbols.is_empty());
    assert!(e.section_headers.is_empty() && e.section_name_offs.is_empty());
    assert_eq!(e.local_symbols_count, 0);
    assert_eq!(e.ehdr.e_shnum, 0);
}

#[test]
fn smallest_object_file() {
    let e = built(".text\nret", false);
    assert_eq!(e.ctx.sections[0].flags, SHF_ALLOC | SHF_EXECINSTR);

    // .strtab: the null name and ".text", padded to 16
    let mut strtab = b"\0.text\0".to_vec();
    strtab.resize(16, 0);
    assert_eq!(e.strtab, strtab);
    assert_eq!(e.symtab_names, vec!["".to_owned(), ".text".to_owned()]);
    assert_eq!(
        e.symtab,
        vec![
            Elf64Sym {
                st_name: 0,
                st_info: 0,
                st_other: 0,
                st_shndx: 0,
                st_value: 0,
                st_size: 0
            },
            Elf64Sym {
                st_name: 0,
                st_info: (STB_LOCAL << 4) + STT_SECTION,
                st_other: 0,
                st_shndx: 1,
                st_value: 0,
                st_size: 0
            },
        ]
    );
    assert_eq!(e.local_symbols_count, 2);
    assert!(e.rela.is_empty());

    let mut shstrtab = b"\0.text\0.strtab\0.symtab\0.shstrtab\0".to_vec();
    assert_eq!(shstrtab.len(), 33);
    shstrtab.resize(48, 0);
    assert_eq!(e.shstrtab, shstrtab);
    assert_eq!(e.section_name_offs, vec![1, 7, 15, 23]);

    let plain = |sh_name, sh_type, sh_flags, sh_offset, sh_size| Elf64Shdr {
        sh_name,
        sh_type,
        sh_flags,
        sh_addr: 0,
        sh_offset,
        sh_size,
        sh_link: 0,
        sh_info: 0,
        sh_addralign: 1,
        sh_entsize: 0,
    };
    assert_eq!(
        e.section_headers,
        vec![
            Elf64Shdr {
                sh_addralign: 0,
                ..plain(0, SHT_NULL, 0, 0, 0)
            },
            plain(1, SHT_PROGBITS, 6, 64, 1),
            plain(7, SHT_STRTAB, 0, 65, 16),
            Elf64Shdr {
                sh_link: 2,
                sh_info: 2,
                sh_addralign: 8,
                sh_entsize: 24,
                ..plain(15, SHT_SYMTAB, 0, 81, 48)
            },
            plain(23, SHT_STRTAB, 0, 129, 48),
        ]
    );
    assert_eq!(
        e.ehdr.e_ident,
        [0x7f, b'E', b'L', b'F', 2, 1, 1, 0, 0, 0, 0, 0, 0, 0, 0, 0]
    );
    assert_eq!(e.ehdr.e_type, 1);
    assert_eq!(e.ehdr.e_machine, 0x3e);
    assert_eq!(e.ehdr.e_version, 1);
    assert_eq!(e.ehdr.e_shoff, 177);
    assert_eq!(e.ehdr.e_ehsize, 64);
    assert_eq!(e.ehdr.e_phentsize, 56);
    assert_eq!(e.ehdr.e_phnum, 0);
    assert_eq!(e.ehdr.e_shentsize, 64);
    assert_eq!(e.ehdr.e_shnum, 5);
    assert_eq!(e.ehdr.e_shstrndx, 4);

    let bytes = e.to_bytes();
    assert_eq!(bytes.len(), 177 + 5 * 64);
    assert_eq!(&bytes[0..16], &e.ehdr.e_ident);
    assert_eq!(u16_at(&bytes, 16), 1);
    assert_eq!(u16_at(&bytes, 18), 0x3e);
    assert_eq!(u32_at(&bytes, 20), 1);
    assert_eq!(u64_at(&bytes, 24), 0);
    assert_eq!(u64_at(&bytes, 32), 0);
    assert_eq!(u64_at(&bytes, 40), 177);
    assert_eq!(u32_at(&bytes, 48), 0);
    assert_eq!(u16_at(&bytes, 52), 64);
    assert_eq!(u16_at(&bytes, 54), 56);
    assert_eq!(u16_at(&bytes, 56), 0);
    assert_eq!(u16_at(&bytes, 58), 64);
    assert_eq!(u16_at(&bytes, 60), 5);
    assert_eq!(u16_at(&bytes, 62), 4);
    assert_eq!(bytes[64], 0xc3);
    assert_eq!(&bytes[65..81], &strtab[..]);
    // the row of the section symbol
    assert_eq!(u32_at(&bytes, 81 + 24), 0);
    assert_eq!(bytes[81 + 24 + 4], 3);
    assert_eq!(bytes[81 + 24 + 5], 0);
    assert_eq!(u16_at(&bytes, 81 + 24 + 6), 1);
    assert_eq!(&bytes[129..177], &shstrtab[..]);
    // the header of .symtab
    let h = 177 + 3 * 64;
    assert_eq!(u32_at(&bytes, h), 15);
    assert_eq!(u32_at(&bytes, h + 4), SHT_SYMTAB);
    assert_eq!(u64_at(&bytes, h + 8), 0);
    assert_eq!(u64_at(&bytes, h + 16), 0);
    assert_eq!(u64_at(&bytes, h + 24), 81);
    assert_eq!(u64_at(&bytes, h + 32), 48);
    assert_eq!(u32_at(&bytes, h + 40), 2);
    assert_eq!(u32_at(&bytes, h + 44), 2);
    assert_eq!(u64_at(&bytes, h + 48), 8);
    assert_eq!(u64_at(&bytes, h + 56), 24);
}

#[test]
fn every_section_lies_where_its_header_says() {
    let e = built(
        ".text\ncall ext\nmovq $d, %rax\nf:\nret\n.data\nd:\nnop\n.global f",
        true,
    );
    let bytes = e.to_bytes();
    let n = e.ctx.sections.len();
    let slice = |h: &Elf64Shdr| &bytes[h.sh_offset as usize..(h.sh_offset + h.sh_size) as usize];
    for (i, s) in e.ctx.sections.iter().enumerate() {
        assert_eq!(slice(&e.section_headers[1 + i]), &s.code[..]);
    }
    assert_eq!(slice(&e.section_headers[n + 1]), &e.strtab[..]);
    assert_eq!(e.section_headers[n + 2].sh_size as usize, 24 * e.symtab.len());
    assert_eq!(e.section_headers[n + 3].sh_size as usize, 24 * e.rela[0].len());
    assert_eq!(slice(&e.section_headers[n + 4]), &e.shstrtab[..]);
    assert_eq!(e.ehdr.e_shoff as usize + 64 * e.section_headers.len(), bytes.len());
    assert_eq!(e.ehdr.e_shnum as usize, e.section_headers.len());
    assert_eq!(e.ehdr.e_shstrndx as usize, e.section_headers.len() - 1);
    // names
    for (h, name) in e.section_headers[1..].iter().zip([
        ".text",
        ".data",
        ".strtab",
        ".symtab",
        ".rela.text",
        ".shstrtab",
    ]) {
        let at = h.sh_name as usize;
        assert_eq!(&e.shstrtab[at..at + name.len()], name.as_bytes());
        assert_eq!(e.shstrtab[at + name.len()], 0);
    }
}

#[test]
fn call_to_undefined_symbol_gets_entry_and_row() {
    let e = built(".text\ncall ext", false);
    assert_eq!(e.rela_symbols, vec!["ext".to_owned()]);
    assert_eq!(
        e.symtab_names,
        vec!["".to_owned(), ".text".to_owned(), "ext".to_owned()]
    );
    assert_eq!(
        e.symtab[2],
        Elf64Sym {
            st_name: 7,
            st_info: (STB_GLOBAL << 4) + STT_NOTYPE,
            st_other: 0,
            st_shndx: 0,
            st_value: 0,
            st_size: 0
        }
    );
    assert_eq!(&e.strtab[..11], b"\0.text\0ext\0");
    assert_eq!(e.local_symbols_count, 2);
    assert_eq!(e.rela_targets, vec![".text".to_owned()]);
    assert_eq!(
        e.rela,
        vec![vec![Elf64Rela {
            r_offset: 1,
            r_info: (2 << 32) | R_X86_64_PC32,
            r_addend: -4
        }]]
    );
    // the header of .rela.text
    let h = e.section_headers[4];
    assert_eq!(h.sh_type, SHT_RELA);
    assert_eq!(h.sh_flags, SHF_INFO_LINK);
    assert_eq!(h.sh_link, 3);
    assert_eq!(h.sh_info, 1);
    assert_eq!(h.sh_size, 24);
    assert_eq!(h.sh_entsize, 24);
    assert_eq!(h.sh_addralign, 8);
    assert_eq!(&e.shstrtab[h.sh_name as usize..h.sh_name as usize + 11], b".rela.text\0");
    // the entry in the file
    let bytes = e.to_bytes();
    let at = h.sh_offset as usize;
    assert_eq!(u64_at(&bytes, at), 1);
    assert_eq!(u64_at(&bytes, at + 8), (2 << 32) | 2);
    assert_eq!(u64_at(&bytes, at + 16), (-4i64) as u64);
}

#[test]
fn resolved_relocations_give_no_entries() {
    let e = built(".text\ncall bar\nbar:\nret", false);
    assert!(e.ctx.relas[0].is_already_resolved);
    assert!(e.rela.is_empty());
    assert!(e.rela_targets.is_empty());
    assert_eq!(e.section_headers.len(), 5);
    assert!(e.section_headers.iter().all(|h| h.sh_type != SHT_RELA));
}

#[test]
fn local_labels_are_left_out_unless_kept() {
    let source = ".text\n.Lfoo:\nnop\nbar:\n.global g\ng:";
    let e = built(source, false);
    assert_eq!(
        e.symtab_names,
        vec!["".to_owned(), ".text".to_owned(), "bar".to_owned(), "g".to_owned()]
    );
    assert_eq!(e.local_symbols_count, 3);
    assert_eq!(e.section_headers[3].sh_info, 3);
    assert_eq!(&e.strtab[..13], b"\0.text\0bar\0g\0");
    assert!(!e.strtab.windows(5).any(|w| w == b".Lfoo"));

    let e = built(source, true);
    assert_eq!(
        e.symtab_names,
        vec![
            "".to_owned(),
            ".text".to_owned(),
            ".Lfoo".to_owned(),
            "bar".to_owned(),
            "g".to_owned()
        ]
    );
    assert_eq!(e.local_symbols_count, 4);
    assert_eq!(e.section_headers[3].sh_info, 4);
    assert_eq!(&e.strtab[..19], b"\0.text\0.Lfoo\0bar\0g\0");
    assert_eq!(e.symtab[2].st_name, 7);
    assert_eq!(e.symtab[3].st_name, 13);
    assert_eq!(e.symtab[3].st_value, 1);
    assert_eq!(e.symtab[4].st_info, (STB_GLOBAL << 4) + STT_NOTYPE);
}

#[test]
fn local_rows_precede_global_rows() {
    let e = built(
        ".text\n.global a\na:\nb:\ncall x\n.global c\nc:\nd:\ncall y\n.hidden c",
        true,
    );
    assert_eq!(
        e.symtab_names,
        vec!["", ".text", "b", "d", "x", "y", "a", "c"]
    );
    let first_global = e
        .symtab
        .iter()
        .position(|s| s.st_info >> 4 == STB_GLOBAL)
        .unwrap();
    assert_eq!(first_global, 4);
    assert_eq!(e.local_symbols_count, 4);
    assert_eq!(e.section_headers[e.ctx.sections.len() + 2].sh_type, SHT_SYMTAB);
    assert_eq!(e.section_headers[e.ctx.sections.len() + 2].sh_info, 4);
    assert!(e.symtab[4..].iter().all(|s| s.st_info >> 4 == STB_GLOBAL));
    assert_eq!(e.symtab[7].st_other, STV_HIDDEN);
    assert_eq!(e.symtab[7].st_shndx, 1);
    assert_eq!(e.symtab[4].st_shndx, 0);
}

#[test]
fn undefined_names_are_collected_once_in_order() {
    let ctx = Context {
        symbols: vec![section_symbol(".text"), symbol("here", ".text", 0, STB_LOCAL)],
        relas: vec![
            rela("b", ".text", 0, R_X86_64_PC32, 0),
            rela("here", ".text", 5, R_X86_64_PC32, 0),
            rela("a", ".text", 10, R_X86_64_PC32, 0),
            rela("b", ".text", 15, R_X86_64_PC32, 0),
        ],
        sections: vec![section(".text", vec![0; 20])],
    };
    let mut e = Elf::new(ctx, false);
    e.collect_rela_symbols();
    assert_eq!(e.rela_symbols, vec!["b".to_owned(), "a".to_owned()]);
    e.collect_rela_symbols();
    assert_eq!(e.rela_symbols, vec!["b".to_owned(), "a".to_owned()]);
}

#[test]
fn every_unresolved_relocation_has_one_entry_in_its_section() {
    let mut resolved = rela("loc", ".text", 20, R_X86_64_PC32, 0);
    resolved.is_already_resolved = true;
    let ctx = Context {
        symbols: vec![
            section_symbol(".text"),
            section_symbol(".data"),
            symbol("loc", ".data", 0x30, STB_LOCAL),
            symbol("glob", ".text", 0x40, STB_GLOBAL),
        ],
        relas: vec![
            rela("ext", ".data", 0, R_X86_64_PC32, 0),
            rela("loc", ".text", 5, R_X86_64_32S, 2),
            resolved,
            rela("glob", ".data", 10, R_X86_64_PLT32, 0),
            rela("ext", ".text", 15, R_X86_64_64, -1),
        ],
        sections: vec![section(".text", vec![0; 32]), section(".data", vec![0; 32])],
    };
    let e = Elf::build(ctx, false).unwrap();
    assert_eq!(
        e.symtab_names,
        vec!["", ".text", ".data", "loc", "ext", "glob"]
    );
    assert_eq!(e.rela_targets, vec![".data".to_owned(), ".text".to_owned()]);
    assert_eq!(
        e.rela,
        vec![
            vec![
                // ext: PC32, 1 - 5
                Elf64Rela {
                    r_offset: 1,
                    r_info: (4 << 32) | R_X86_64_PC32,
                    r_addend: -4
                },
                // glob is global: its own row; any other type counts -4
                Elf64Rela {
                    r_offset: 11,
                    r_info: (5 << 32) | R_X86_64_PLT32,
                    r_addend: -4
                },
            ],
            vec![
                // loc is local and has a row: its own row, and only the adjustment
                Elf64Rela {
                    r_offset: 6,
                    r_info: (3 << 32) | R_X86_64_32S,
                    r_addend: 2
                },
                Elf64Rela {
                    r_offset: 16,
                    r_info: (4 << 32) | R_X86_64_64,
                    r_addend: -1
                },
            ],
        ]
    );
    // the relocation sections come in the order of their first relocation
    let n = 2;
    assert_eq!(e.section_headers[n + 3].sh_info, 2);
    assert_eq!(e.section_headers[n + 4].sh_info, 1);
    assert_eq!(e.section_headers[n + 3].sh_size, 48);
    assert_eq!(e.section_headers[n + 4].sh_offset, e.section_headers[n + 3].sh_offset + 48);
    let total: usize = e.rela.iter().map(|l| l.len()).sum();
    assert_eq!(total, e.ctx.relas.iter().filter(|r| !r.is_already_resolved).count());
}

#[test]
fn inconsistent_tables_are_errors() {
    let inconsistent = AsmError {
        kind: ErrorKind::InconsistentSymbol,
        loc: None,
    };
    // a symbol in a section that does not exist
    let ctx = Context {
        symbols: vec![symbol("s", ".gone", 0, STB_LOCAL)],
        relas: vec![],
        sections: vec![section(".text", vec![])],
    };
    assert_eq!(Elf::build(ctx, false).map(|_| ()), Err(inconsistent));
    // a local label without a row, in a section without a symbol
    let ctx = Context {
        symbols: vec![symbol(".Ls", ".text", 0, STB_LOCAL)],
        relas: vec![rela(".Ls", ".text", 0, R_X86_64_32S, 0)],
        sections: vec![section(".text", vec![0; 8])],
    };
    assert_eq!(Elf::build(ctx.clone(), false).map(|_| ()), Err(inconsistent));
    // with the label kept, it has its own row
    let e = Elf::build(ctx, true).unwrap();
    assert_eq!(e.rela[0][0].r_info, (1 << 32) | R_X86_64_32S);
    // a name that nothing defines and no row carries
    let ctx = Context {
        symbols: vec![],
        relas: vec![rela("s", ".text", 0, R_X86_64_32S, 0)],
        sections: vec![section(".text", vec![0; 8])],
    };
    let mut e = Elf::new(ctx, false);
    e.build_symtab_strtab().unwrap();
    assert_eq!(e.rela_text_users(), Err(inconsistent));
    // a relocation in a section that does not exist
    let ctx = Context {
        symbols: vec![],
        relas: vec![rela("s", ".gone", 0, R_X86_64_32S, 0)],
        sections: vec![section(".text", vec![0; 8])],
    };
    assert_eq!(Elf::build(ctx, false).map(|_| ()), Err(inconsistent));
    // headers before the names
    let mut e = Elf::new(context(".text\nret"), false);
    assert_eq!(e.build_headers(), Err(inconsistent));
}

#[test]
fn tables_that_do_not_fit_are_errors() {
    let too_large = AsmError {
        kind: ErrorKind::TooLarge,
        loc: None,
    };
    // a relocation type beyond 32 bits
    let ctx = Context {
        symbols: vec![],
        relas: vec![rela("s", ".text", 0, 1 << 32, 0)],
        sections: vec![section(".text", vec![0; 8])],
    };
    assert_eq!(Elf::build(ctx, false).map(|_| ()), Err(too_large));
    // more sections than a 16-bit index can name
    let ctx = Context {
        symbols: vec![],
        relas: vec![],
        sections: (0..0xffff).map(|i| section(&format!(".s{}", i), vec![])).collect(),
    };
    assert_eq!(Elf::build(ctx, false).map(|_| ()), Err(too_large));
}

#[test]
fn same_source_gives_the_same_bytes() {
    let source = ".text\n.global main\nmain:\npush %rbp\nmovq $msg, %rax\ncall puts\n.Lend:\npop %rbp\nret\n.data\nmsg:\nnop";
    let first = assemble(source, false).unwrap();
    let second = assemble(source, false).unwrap();
    assert_eq!(first, second);
    assert_eq!(&first[..4], b"\x7fELF");
    let kept = assemble(source, true).unwrap();
    assert_ne!(first, kept);
    let tokens = tokenize(source).unwrap();
    assert_eq!(assemble_tokens(tokens.clone(), false), Ok(first.clone()));
    assert_eq!(assemble_tokens(tokens, false), Ok(first));
}

#[test]
fn assemble_reports_the_first_error() {
    assert_eq!(
        assemble("nop\n@", false),
        Err(AsmError {
            kind: ErrorKind::UnexpectedChar('@'),
            loc: Some(Location { line: 1, column: 0 }),
        })
    );
    assert_eq!(
        assemble("nop\nfrob", false),
        Err(AsmError {
            kind: ErrorKind::UnknownMnemonic,
            loc: Some(Location { line: 1, column: 0 }),
        })
    );
    assert_eq!(
        assemble(".global x", false),
        Err(AsmError {
            kind: ErrorKind::UndefinedSymbol,
            loc: Some(Location { line: 0, column: 0 }),
        })
    );
    // a local label that gets no row, in a section that has no symbol
    assert_eq!(
        assemble(".Ll:\nmovq $.Ll, %rax", false),
        Err(AsmError {
            kind: ErrorKind::InconsistentSymbol,
            loc: None,
        })
    );
    assert!(assemble(".Ll:\nmovq $.Ll, %rax", true).is_ok());
}

#[test]
fn errors_carry_their_location() {
    let e = AsmError::new(ErrorKind::TooLarge);
    assert_eq!(e.loc, None);
    let at = Location { line: 2, column: 5 };
    assert_eq!(e.with_location(at), AsmError::at(ErrorKind::TooLarge, at));
    assert_eq!(AsmError::at(ErrorKind::TooLarge, at).loc, Some(at));
}

#[test]
fn little_endian_beyond_eight_bytes_is_zero() {
    let mut out = Vec::new();
    push_le(&mut out, u64::MAX, 10);
    assert_eq!(
        out,
        vec![0xff, 0xff, 0xff, 0xff, 0xff, 0xff, 0xff, 0xff, 0, 0]
    );
}

#[test]
fn pc_relative_addend_counts_the_bytes_behind_the_field() {
    // the displacement is followed by a four-byte immediate: 2 - 10
    let e = built(".text\nmovl $1, ext(%rip)", false);
    assert_eq!(
        e.rela,
        vec![vec![Elf64Rela {
            r_offset: 2,
            r_info: (2 << 32) | R_X86_64_PC32,
            r_addend: -8
        }]]
    );
}

#[test]
fn relocation_against_a_label_refers_to_the_row_of_the_label() {
    let e = built(".data\nnop\nvalue:\nnop\n.text\nmovq $value + 3, %rax", false);
    assert_eq!(
        e.symtab_names,
        vec!["", ".data", "value", ".text"]
    );
    assert_eq!(e.rela_targets, vec![".text".to_owned()]);
    // the row of value; the addend is the adjustment alone
    assert_eq!(
        e.rela,
        vec![vec![Elf64Rela {
            r_offset: 3,
            r_info: (2 << 32) | R_X86_64_32S,
            r_addend: 3
        }]]
    );
    assert_eq!(e.symtab[2].st_value, 1);
    assert_eq!(e.symtab[2].st_shndx, 1);
    assert_eq!(e.symtab[3].st_shndx, 2);
}

#[test]
fn label_in_a_section_without_directive_can_be_relocated() {
    let e = built("foo:\nmovq $foo, %rax", false);
    assert_eq!(e.symtab_names, vec!["", "foo"]);
    assert_eq!(
        e.rela,
        vec![vec![Elf64Rela {
            r_offset: 3,
            r_info: (1 << 32) | R_X86_64_32S,
            r_addend: 0
        }]]
    );
    assert_eq!(e.symtab[1].st_shndx, 1);
    assert_eq!(e.symtab[1].st_info, (STB_LOCAL << 4) + STT_NOTYPE);
}

#[test]
fn relocation_against_a_dropped_local_label_goes_through_its_section() {
    let source = ".data\nnop\n.Lv:\nnop\n.text\nmovq $.Lv + 3, %rax";
    let e = built(source, false);
    assert_eq!(e.symtab_names, vec!["", ".data", ".text"]);
    // the row of .data; the label's address 1 and the adjustment 3
    assert_eq!(
        e.rela,
        vec![vec![Elf64Rela {
            r_offset: 3,
            r_info: (1 << 32) | R_X86_64_32S,
            r_addend: 4
        }]]
    );
    // kept, the label has its own row
    let e = built(source, true);
    assert_eq!(e.symtab_names, vec!["", ".data", ".Lv", ".text"]);
    assert_eq!(
        e.rela,
        vec![vec![Elf64Rela {
            r_offset: 3,
            r_info: (2 << 32) | R_X86_64_32S,
            r_addend: 3
        }]]
    );
}

#[test]
fn undefined_names_get_synthesized_rows() {
    let ctx = Context {
        symbols: vec![section_symbol(".text")],
        relas: vec![
            rela("puts", ".text", 0, R_X86_64_PC32, 0),
            rela("exit", ".text", 5, R_X86_64_PC32, 0),
        ],
        sections: vec![section(".text", vec![0; 10])],
    };
    let mut e = Elf::new(ctx, false);
    e.collect_rela_symbols();
    // a table that holds one row already
    e.strtab = b"\0first\0".to_vec();
    e.symtab = vec![Elf64Sym {
        st_name: 1,
        st_info: 0,
        st_other: 0,
        st_shndx: 1,
        st_value: 0,
        st_size: 0,
    }];
    e.symtab_names = vec!["first".to_owned()];
    e.local_symbols_count = 1;
    assert_eq!(e.elf_rela_symbol(), Ok(()));
    assert_eq!(e.symtab.len(), 3);
    assert_eq!(e.symtab_names, vec!["first", "puts", "exit"]);
    assert_eq!(e.local_symbols_count, 1);
    for (row, name, at) in [(1, "puts", 7), (2, "exit", 12)] {
        assert_eq!(
            e.symtab[row],
            Elf64Sym {
                st_name: at,
                st_info: 0x10,
                st_other: 0,
                st_shndx: 0,
                st_value: 0,
                st_size: 0
            }
        );
        let at = at as usize;
        assert_eq!(&e.strtab[at..at + name.len()], name.as_bytes());
        assert_eq!(e.strtab[at + name.len()], 0);
    }
    assert_eq!(e.strtab, b"\0first\0puts\0exit\0".to_vec());
}

#[test]
fn pass_over_local_symbols_drops_or_keeps_local_labels() {
    let ctx = Context {
        symbols: vec![
            symbol(".L1", ".text", 4, STB_LOCAL),
            symbol("g", ".text", 0, STB_GLOBAL),
            symbol("here", ".text", 8, STB_LOCAL),
        ],
        relas: vec![],
        sections: vec![section(".text", vec![0; 10])],
    };
    // dropped
    let mut e = Elf::new(ctx.clone(), false);
    e.strtab = vec![0];
    assert_eq!(e.elf_symbol(STB_LOCAL), Ok(()));
    assert_eq!(e.symtab_names, vec!["here"]);
    assert_eq!(e.symtab.len(), 1);
    // counted for `here` alone
    assert_eq!(e.local_symbols_count, 1);
    assert_eq!(e.strtab, b"\0here\0".to_vec());
    assert!(!e.strtab.windows(4).any(|w| w == b".L1\0"));

    // kept
    let mut e = Elf::new(ctx.clone(), true);
    e.strtab = vec![0];
    e.symtab = vec![Elf64Sym {
        st_name: 0,
        st_info: 0,
        st_other: 0,
        st_shndx: 0,
        st_value: 0,
        st_size: 0,
    }];
    e.symtab_names = vec!["".to_owned()];
    e.local_symbols_count = 1;
    assert_eq!(e.elf_symbol(STB_LOCAL), Ok(()));
    assert_eq!(e.symtab_names, vec!["", ".L1", "here"]);
    assert_eq!(e.local_symbols_count, 3);
    assert_eq!(e.strtab, b"\0.L1\0here\0".to_vec());
    assert_eq!(
        e.symtab[1],
        Elf64Sym {
            st_name: 1,
            st_info: STB_LOCAL << 4,
            st_other: 0,
            st_shndx: 1,
            st_value: 4,
            st_size: 0
        }
    );
    assert_eq!(e.symtab[2].st_name, 5);
    assert_eq!(e.symtab[2].st_value, 8);

    // the pass for global symbols takes the others and leaves the count
    assert_eq!(e.elf_symbol(STB_GLOBAL), Ok(()));
    assert_eq!(e.symtab_names, vec!["", ".L1", "here", "g"]);
    assert_eq!(e.symtab[3].st_info, STB_GLOBAL << 4);
    assert_eq!(e.local_symbols_count, 3);
}
