use x86asm::elf::constants::{
    R_X86_64_32S, R_X86_64_PC32, SHF_ALLOC, SHF_EXECINSTR, SHF_WRITE, STB_GLOBAL, STB_LOCAL,
    STT_NOTYPE, STT_SECTION, STV_DEFAULT, STV_HIDDEN, STV_INTERNAL, STV_PROTECTED,
};
use x86asm::encoder::addr::{
    change_symbol_binding, change_symbol_visibility, fix_same_section_relocations, section_flags,
};
use x86asm::encoder::arch::x86_64::instructions::InstrKind;
use x86asm::encoder::arch::x86_64::registers::{
    get_reg_info_by, DataSizeSuffix, Register,
};
use x86asm::encoder::statement::{mnemonic, parse, Mnemonic};
use x86asm::encoder::{
    compose_mod_rm, find_section, find_symbol, rex, Context, Encoder, Instr, Rela,
    UserDefinedSection,
};
use x86asm::error::{AsmError, ErrorKind};
use x86asm::lexer::{tokenize, Location, Token, TokenKind};

fn encode(source: &str) -> Result<Encoder, AsmError> {
    parse(tokenize(source)?)
}

fn general(name: &str) -> Register {
    get_reg_info_by(name).unwrap()
}

fn none() -> Register {
    Register::default()
}

fn prefix_of(r: Register, i: Register, b: Register, sizes: &[DataSizeSuffix]) -> Vec<u8> {
    let mut e = Encoder::new(Vec::new());
    e.add_prefix(r, i, b, sizes);
    e.current_instr.code
}

fn codes(e: &Encoder, section: usize) -> Vec<Vec<u8>> {
    e.instrs[section].iter().map(|i| i.code.clone()).collect()
}

fn addrs(e: &Encoder, section: usize) -> Vec<usize> {
    e.instrs[section].iter().map(|i| i.addr).collect()
}

fn symbol(name: &str, section: &str, addr: usize, binding: u8) -> Instr {
    let mut i = Instr::new(InstrKind::Label, Location { line: 0, column: 0 });
    i.symbol_name = name.to_owned();
    i.section = section.to_owned();
    i.addr = addr;
    i.binding = binding;
    i
}

#[test]
fn rex_byte_layout() {
    assert_eq!(rex(0, 0, 0, 0), 0x40);
    assert_eq!(rex(1, 0, 0, 0), 0x48);
    assert_eq!(rex(0, 1, 0, 0), 0x44);
    assert_eq!(rex(0, 0, 1, 0), 0x42);
    assert_eq!(rex(0, 0, 0, 1), 0x41);
    assert_eq!(rex(1, 1, 1, 1), 0x4f);
}

#[test]
fn mod_rm_byte_layout() {
    assert_eq!(compose_mod_rm(3, 0, 0), 0xc0);
    assert_eq!(compose_mod_rm(0, 0, 0), 0x00);
    assert_eq!(compose_mod_rm(1, 2, 3), 0x53);
    assert_eq!(compose_mod_rm(2, 7, 5), 0xbd);
    assert_eq!(compose_mod_rm(3, 7, 7), 0xff);
}

#[test]
fn rex_prefix_is_present_exactly_when_needed() {
    let long = [DataSizeSuffix::Long];
    let quad = [DataSizeSuffix::Quad];
    let byte = [DataSizeSuffix::Byte];
    // nothing asks for it
    assert_eq!(prefix_of(general("EAX"), none(), general("ECX"), &long), vec![]);
    assert_eq!(prefix_of(general("AL"), none(), general("CL"), &byte), vec![]);
    // W
    assert_eq!(prefix_of(general("RAX"), none(), general("RCX"), &quad), vec![0x48]);
    // R, X, B
    assert_eq!(prefix_of(general("R8D"), none(), general("ECX"), &long), vec![0x44]);
    assert_eq!(prefix_of(none(), general("R9"), none(), &long), vec![0x42]);
    assert_eq!(prefix_of(general("EAX"), none(), general("R15D"), &long), vec![0x41]);
    assert_eq!(
        prefix_of(general("R8"), general("R9"), general("R10"), &quad),
        vec![0x4f]
    );
    // the byte registers that need it with a low number
    for name in ["SPL", "BPL", "SIL", "DIL"] {
        assert_eq!(prefix_of(general(name), none(), general("AL"), &byte), vec![0x40]);
        assert_eq!(prefix_of(general("AL"), none(), general(name), &byte), vec![0x40]);
    }
    assert_eq!(prefix_of(general("AH"), none(), general("BH"), &byte), vec![]);
}

#[test]
fn size_prefixes_come_before_rex() {
    assert_eq!(
        prefix_of(general("AX"), none(), general("CX"), &[DataSizeSuffix::Word]),
        vec![0x66]
    );
    assert_eq!(
        prefix_of(general("R8W"), none(), general("CX"), &[DataSizeSuffix::Word]),
        vec![0x66, 0x44]
    );
    assert_eq!(
        prefix_of(none(), none(), none(), &[DataSizeSuffix::Single]),
        vec![0xf3]
    );
    assert_eq!(
        prefix_of(none(), none(), general("R8"), &[DataSizeSuffix::Double]),
        vec![0xf2, 0x41]
    );
    assert_eq!(
        prefix_of(
            none(),
            none(),
            none(),
            &[DataSizeSuffix::Double, DataSizeSuffix::Word, DataSizeSuffix::Quad]
        ),
        vec![0x66, 0xf2, 0x48]
    );
}

#[test]
fn movq_immediate_to_rax() {
    let e = encode("movq $1, %rax").unwrap();
    assert_eq!(e.ctx.sections.len(), 1);
    assert_eq!(e.ctx.sections[0].name, ".text");
    assert_eq!(
        codes(&e, 0),
        vec![vec![0x48, 0xc7, 0xc0, 0x01, 0x00, 0x00, 0x00]]
    );
    assert_eq!(e.instrs[0][0].kind, InstrKind::Mov);
    assert_eq!(e.instrs[0][0].addr, 0);
    assert_eq!(e.ctx.sections[0].addr, 7);
    assert!(e.ctx.relas.is_empty());
    assert!(e.ctx.symbols.is_empty());
}

#[test]
fn mov_between_registers() {
    let e = encode("movq %rsi, %rdi\nmovl %eax, %ecx\nmovw %ax, %dx\nmovb %al, %bl\nmov %rbx, %rax")
        .unwrap();
    assert_eq!(
        codes(&e, 0),
        vec![
            vec![0x48, 0x89, 0xf7],
            vec![0x89, 0xc1],
            vec![0x66, 0x89, 0xc2],
            vec![0x88, 0xc3],
            vec![0x48, 0x89, 0xd8],
        ]
    );
    assert_eq!(addrs(&e, 0), vec![0, 3, 5, 8, 10]);
    assert_eq!(e.ctx.sections[0].addr, 13);
}

#[test]
fn mov_immediates_of_each_size() {
    let e = encode("movl $-1, %eax\nmovw $513, %cx\nmovb $255, %dl\nmovq $-2, %rbx").unwrap();
    assert_eq!(
        codes(&e, 0),
        vec![
            vec![0xc7, 0xc0, 0xff, 0xff, 0xff, 0xff],
            vec![0x66, 0xc7, 0xc1, 0x01, 0x02],
            vec![0xc6, 0xc2, 0xff],
            vec![0x48, 0xc7, 0xc3, 0xfe, 0xff, 0xff, 0xff],
        ]
    );
}

#[test]
fn mov_rejects_what_it_cannot_encode() {
    let invalid = |column| {
        Err(AsmError {
            kind: ErrorKind::InvalidOperand,
            loc: Some(Location { line: 0, column }),
        })
    };
    // sizes disagree
    assert_eq!(encode("movq %eax, %rcx").map(|_| ()), invalid(0));
    assert_eq!(encode("movl $1, %rax").map(|_| ()), invalid(0));
    // immediate out of range
    assert_eq!(encode("movb $256, %al").map(|_| ()), invalid(0));
    assert_eq!(encode("movq $2147483648, %rax").map(|_| ()), invalid(0));
    // a bare number is no operand of mov
    assert_eq!(encode("movq 4096, %rcx").map(|_| ()), invalid(0));
    assert_eq!(encode("  mov $1, $2").map(|_| ()), invalid(2));
}

#[test]
fn mov_symbol_immediate_records_relocation() {
    let e = encode("movq $foo + 8, %rax").unwrap();
    assert_eq!(
        codes(&e, 0),
        vec![vec![0x48, 0xc7, 0xc0, 0x00, 0x00, 0x00, 0x00]]
    );
    assert_eq!(e.ctx.relas.len(), 1);
    let r = &e.ctx.relas[0];
    assert_eq!(r.uses, "foo");
    assert_eq!(r.offset, 3);
    assert_eq!(r.rtype, R_X86_64_32S);
    assert_eq!(r.adjust, 8);
    assert!(!r.is_already_resolved);
    assert_eq!(r.instr, e.instrs[0][0]);
    assert_eq!(e.instrs[0][0].symbol_name, "foo");
}

#[test]
fn two_free_symbols_are_ambiguous() {
    assert_eq!(
        encode("nop\nmovq $foo - bar, %rax").map(|_| ()),
        Err(AsmError {
            kind: ErrorKind::AmbiguousRelocation,
            loc: Some(Location { line: 1, column: 0 }),
        })
    );
    assert_eq!(
        encode("call a + b").map(|_| ()),
        Err(AsmError {
            kind: ErrorKind::AmbiguousRelocation,
            loc: Some(Location { line: 0, column: 0 }),
        })
    );
}

#[test]
fn push_and_pop() {
    let at = |column| Location { line: 0, column };
    let tokens = vec![
        Token { kind: TokenKind::Ident("push".to_owned()), loc: at(0) },
        Token { kind: TokenKind::Percent, loc: at(5) },
        Token { kind: TokenKind::Ident("r12".to_owned()), loc: at(6) },
        Token { kind: TokenKind::Ident("pop".to_owned()), loc: at(10) },
        Token { kind: TokenKind::Percent, loc: at(14) },
        Token { kind: TokenKind::Ident("r9".to_owned()), loc: at(15) },
    ];
    let e = parse(tokens).unwrap();
    assert_eq!(codes(&e, 0), vec![vec![0x41, 0x54], vec![0x41, 0x59]]);

    let e = encode("pushq %rbp\npopq %rbx\npush $1\npush $-128\npush $128\npush $foo").unwrap();
    assert_eq!(
        codes(&e, 0),
        vec![
            vec![0x55],
            vec![0x5b],
            vec![0x6a, 0x01],
            vec![0x6a, 0x80],
            vec![0x68, 0x80, 0x00, 0x00, 0x00],
            vec![0x68, 0x00, 0x00, 0x00, 0x00],
        ]
    );
    assert_eq!(e.ctx.relas.len(), 1);
    assert_eq!(e.ctx.relas[0].uses, "foo");
    assert_eq!(e.ctx.relas[0].offset, 1);
    assert_eq!(e.ctx.relas[0].rtype, R_X86_64_32S);
    assert_eq!(e.ctx.relas[0].adjust, 0);
    // 1 + 1 + 2 + 2 + 5 bytes stand before it
    assert_eq!(e.ctx.relas[0].instr.addr, 11);

    assert_eq!(
        encode("push %eax").map(|_| ()),
        Err(AsmError {
            kind: ErrorKind::InvalidOperand,
            loc: Some(at(0)),
        })
    );
    assert_eq!(
        encode("pop $1").map(|_| ()),
        Err(AsmError {
            kind: ErrorKind::InvalidOperand,
            loc: Some(at(0)),
        })
    );
}

#[test]
fn ret_nop_and_indirect_branches() {
    let e = encode("ret\nnop\ncall *rax\njmp *rcx").unwrap();
    assert_eq!(
        codes(&e, 0),
        vec![vec![0xc3], vec![0x90], vec![0xff, 0xd0], vec![0xff, 0xe1]]
    );
    assert!(!e.instrs[0][2].is_jmp_or_call);
    assert!(e.ctx.relas.is_empty());
}

#[test]
fn call_to_earlier_local_label_needs_no_relocation() {
    let e = encode(".text\nnop\nfoo:\nnop\nnop\ncall foo\njmp foo").unwrap();
    // foo stands at 1, the call at 3, the jump at 8
    assert_eq!(e.ctx.symbols[find_symbol(&e.ctx.symbols, &"foo".to_owned()).unwrap()].addr, 1);
    let call = &e.instrs[0][5];
    assert_eq!(call.addr, 3);
    // 1 - 3 - 5 = -7
    assert_eq!(call.code, vec![0xe8, 0xf9, 0xff, 0xff, 0xff]);
    assert!(call.is_jmp_or_call);
    let jump = &e.instrs[0][6];
    assert_eq!(jump.addr, 8);
    // 1 - 8 - 5 = -12
    assert_eq!(jump.code, vec![0xe9, 0xf4, 0xff, 0xff, 0xff]);
    assert!(e.ctx.relas.is_empty());
}

#[test]
fn call_to_later_label_is_resolved_by_address_assignment() {
    let mut e = encode(".text\ncall bar\nnop\nbar:\nret").unwrap();
    assert_eq!(e.ctx.relas.len(), 1);
    assert_eq!(e.ctx.relas[0].rtype, R_X86_64_PC32);
    assert_eq!(e.ctx.relas[0].offset, 1);
    assert_eq!(e.ctx.relas[0].adjust, 0);
    assert!(!e.ctx.relas[0].is_already_resolved);
    assert_eq!(e.instrs[0][1].code, vec![0xe8, 0, 0, 0, 0]);

    assert_eq!(e.assign_addresses(), Ok(()));
    assert!(e.ctx.relas[0].is_already_resolved);
    // bar stands at 6: 6 - 0 - 5 = 1
    assert_eq!(e.ctx.sections[0].code, vec![0xe8, 0x01, 0, 0, 0, 0x90, 0xc3]);
    assert_eq!(e.ctx.sections[0].flags, SHF_ALLOC | SHF_EXECINSTR);
}

#[test]
fn call_to_undefined_symbol_keeps_relocation() {
    let mut e = encode(".text\ncall ext").unwrap();
    assert_eq!(e.assign_addresses(), Ok(()));
    assert_eq!(e.ctx.relas.len(), 1);
    let r = &e.ctx.relas[0];
    assert_eq!(r.uses, "ext");
    assert_eq!(r.rtype, R_X86_64_PC32);
    assert_eq!(r.offset, 1);
    assert_eq!(r.adjust, 0);
    assert!(!r.is_already_resolved);
    assert!(r.instr.is_jmp_or_call);
    assert_eq!(e.ctx.sections[0].code, vec![0xe8, 0, 0, 0, 0]);
}

#[test]
fn call_to_global_symbol_keeps_relocation() {
    let mut e = encode(".text\n.global f\ncall f\nf:\nret").unwrap();
    assert_eq!(e.assign_addresses(), Ok(()));
    assert_eq!(e.ctx.symbols[1].symbol_name, "f");
    assert_eq!(e.ctx.symbols[1].binding, STB_GLOBAL);
    assert!(!e.ctx.relas[0].is_already_resolved);
    assert_eq!(e.ctx.sections[0].code, vec![0xe8, 0, 0, 0, 0, 0xc3]);
}

#[test]
fn call_to_label_in_other_section_keeps_relocation() {
    let mut e = encode(".data\nd:\n.text\ncall d").unwrap();
    assert_eq!(e.ctx.relas.len(), 1);
    assert_eq!(e.assign_addresses(), Ok(()));
    assert!(!e.ctx.relas[0].is_already_resolved);
    assert_eq!(e.ctx.sections[0].name, ".data");
    assert_eq!(e.ctx.sections[0].flags, SHF_ALLOC | SHF_WRITE);
    assert_eq!(e.ctx.sections[1].name, ".text");
}

#[test]
fn second_definition_overwrites_the_first() {
    let e = encode("foo:\nnop\nfoo:\nnop").unwrap();
    assert_eq!(e.ctx.symbols.len(), 1);
    assert_eq!(e.ctx.symbols[0].symbol_name, "foo");
    assert_eq!(e.ctx.symbols[0].addr, 1);
    assert_eq!(e.ctx.symbols[0].binding, STB_LOCAL);
    assert_eq!(e.ctx.symbols[0].symbol_type, STT_NOTYPE);
    assert_eq!(e.ctx.symbols[0].section, ".text");
}

#[test]
fn define_freezes_address_at_the_cursor() {
    let mut e = encode(".text\nnop\nnop").unwrap();
    let mut record = Instr::new(InstrKind::Label, Location { line: 9, column: 0 });
    record.symbol_name = "here".to_owned();
    record.section = ".text".to_owned();
    record.addr = 77;
    e.define(record);
    let k = find_symbol(&e.ctx.symbols, &"here".to_owned()).unwrap();
    assert_eq!(e.ctx.symbols[k].addr, 2);
    assert_eq!(e.ctx.symbols.len(), 2);

    let mut other = Instr::new(InstrKind::Label, Location { line: 9, column: 0 });
    other.symbol_name = "elsewhere".to_owned();
    other.section = ".nowhere".to_owned();
    other.addr = 77;
    e.define(other);
    assert_eq!(e.ctx.symbols[2].addr, 0);
}

#[test]
fn record_relocation_appends() {
    let mut e = encode("nop").unwrap();
    let instr = e.instrs[0][0].clone();
    e.record_relocation(Rela {
        uses: "x".to_owned(),
        instr: instr.clone(),
        offset: 1,
        rtype: R_X86_64_PC32,
        adjust: -3,
        is_already_resolved: false,
    });
    assert_eq!(e.ctx.relas.len(), 1);
    assert_eq!(e.ctx.relas[0].uses, "x");
    assert_eq!(e.ctx.relas[0].instr, instr);
    assert_eq!(e.ctx.relas[0].adjust, -3);
}

#[test]
fn addresses_are_sums_of_preceding_lengths() {
    let mut e =
        encode(".text\nmovq $1, %rax\nret\n.data\nnop\n.text\nnop\npush $300\nl:\nret").unwrap();
    assert_eq!(e.assign_addresses(), Ok(()));
    for (s, list) in e.instrs.iter().enumerate() {
        let mut sum = 0;
        for i in list {
            assert_eq!(i.addr, sum);
            assert_eq!(i.section, e.ctx.sections[s].name);
            sum += i.code.len();
        }
        assert_eq!(e.ctx.sections[s].addr, sum);
        assert_eq!(e.ctx.sections[s].code.len(), sum);
    }
    // .text: directive, mov (7), ret (1), directive, nop (1), push (5), label, ret (1)
    assert_eq!(addrs(&e, 0), vec![0, 0, 7, 8, 8, 9, 14, 14]);
    assert_eq!(addrs(&e, 1), vec![0, 0]);
    assert_eq!(
        e.ctx.sections[0].code,
        vec![0x48, 0xc7, 0xc0, 1, 0, 0, 0, 0xc3, 0x90, 0x68, 0x2c, 0x01, 0, 0, 0xc3]
    );
    assert_eq!(e.ctx.sections[1].code, vec![0x90]);
}

#[test]
fn directives_change_symbols_during_address_assignment() {
    let mut e = encode(
        ".section .mine, \"wa\"\n.global a\n.hidden a\na:\n.internal b\nb:\n.protected c\nc:\n.local a",
    )
    .unwrap();
    // nothing changes before address assignment
    assert_eq!(e.ctx.symbols[1].binding, STB_LOCAL);
    assert_eq!(e.ctx.symbols[1].visibility, STV_DEFAULT);
    assert_eq!(e.ctx.sections[0].flags, 0);
    assert_eq!(e.assign_addresses(), Ok(()));
    assert_eq!(e.ctx.sections[0].name, ".mine");
    assert_eq!(e.ctx.sections[0].flags, SHF_ALLOC | SHF_WRITE);
    let names: Vec<&str> = e.ctx.symbols.iter().map(|s| s.symbol_name.as_str()).collect();
    assert_eq!(names, vec![".mine", "a", "b", "c"]);
    assert_eq!(e.ctx.symbols[0].symbol_type, STT_SECTION);
    assert_eq!(e.ctx.symbols[0].kind, InstrKind::Section);
    assert_eq!(e.ctx.symbols[1].binding, STB_LOCAL);
    assert_eq!(e.ctx.symbols[1].visibility, STV_HIDDEN);
    assert_eq!(e.ctx.symbols[2].visibility, STV_INTERNAL);
    assert_eq!(e.ctx.symbols[3].visibility, STV_PROTECTED);
}

#[test]
fn binding_of_undefined_symbol_fails() {
    let mut e = encode("nop\n  .global nothing").unwrap();
    assert_eq!(
        e.assign_addresses(),
        Err(AsmError {
            kind: ErrorKind::UndefinedSymbol,
            loc: Some(Location { line: 1, column: 2 }),
        })
    );
    let mut e = encode(".hidden nothing").unwrap();
    assert_eq!(
        e.assign_addresses(),
        Err(AsmError {
            kind: ErrorKind::UndefinedSymbol,
            loc: Some(Location { line: 0, column: 0 }),
        })
    );
}

#[test]
fn section_cannot_be_global() {
    let mut e = encode(".text\n.global .text").unwrap();
    assert_eq!(
        e.assign_addresses(),
        Err(AsmError {
            kind: ErrorKind::SectionCannotBeGlobal,
            loc: Some(Location { line: 1, column: 0 }),
        })
    );
    // local is fine
    let mut e = encode(".text\n.local .text").unwrap();
    assert_eq!(e.assign_addresses(), Ok(()));
}

#[test]
fn change_binding_and_visibility_in_place() {
    let mut symbols = vec![symbol("a", ".text", 0, STB_LOCAL), symbol("b", ".text", 4, STB_LOCAL)];
    let mut directive = Instr::new(InstrKind::Global, Location { line: 3, column: 1 });
    directive.symbol_name = "b".to_owned();
    assert_eq!(change_symbol_binding(&mut symbols, &directive, STB_GLOBAL), Ok(()));
    assert_eq!(symbols[0].binding, STB_LOCAL);
    assert_eq!(symbols[1].binding, STB_GLOBAL);
    assert_eq!(symbols[1].addr, 4);
    assert_eq!(change_symbol_visibility(&mut symbols, &directive, STV_HIDDEN), Ok(()));
    assert_eq!(symbols[1].visibility, STV_HIDDEN);
    assert_eq!(symbols[0].visibility, STV_DEFAULT);
    directive.symbol_name = "c".to_owned();
    let undefined = Err(AsmError {
        kind: ErrorKind::UndefinedSymbol,
        loc: Some(Location { line: 3, column: 1 }),
    });
    assert_eq!(change_symbol_binding(&mut symbols, &directive, STB_GLOBAL), undefined);
    assert_eq!(change_symbol_visibility(&mut symbols, &directive, STV_HIDDEN), undefined);
}

#[test]
fn section_flag_letters() {
    assert_eq!(section_flags(""), Ok(0));
    assert_eq!(section_flags("a"), Ok(SHF_ALLOC));
    assert_eq!(section_flags("x"), Ok(SHF_EXECINSTR));
    assert_eq!(section_flags("w"), Ok(SHF_WRITE));
    assert_eq!(section_flags("awx"), Ok(7));
    assert_eq!(section_flags("aa"), Ok(2));
    assert_eq!(
        section_flags("aqx"),
        Err(AsmError {
            kind: ErrorKind::UnknownSectionFlag('q'),
            loc: None
        })
    );
    let mut e = encode(".section .s, \"z\"").unwrap();
    assert_eq!(
        e.assign_addresses(),
        Err(AsmError {
            kind: ErrorKind::UnknownSectionFlag('z'),
            loc: Some(Location { line: 0, column: 0 }),
        })
    );
}

fn resolvable_context(sym_addr: usize, binding: u8, rtype: u64, jump: bool) -> Context {
    let mut instr = Instr::new(InstrKind::Call, Location { line: 0, column: 0 });
    instr.code = vec![0xe8, 0, 0, 0, 0];
    instr.section = ".text".to_owned();
    instr.addr = 10;
    instr.is_jmp_or_call = jump;
    Context {
        symbols: vec![symbol("f", ".text", sym_addr, binding)],
        relas: vec![Rela {
            uses: "f".to_owned(),
            instr,
            offset: 1,
            rtype,
            adjust: 0,
            is_already_resolved: false,
        }],
        sections: vec![UserDefinedSection {
            name: ".text".to_owned(),
            code: vec![0x11; 16],
            addr: 16,
            flags: 0,
        }],
    }
}

#[test]
fn same_section_pass_patches_little_endian_displacement() {
    // 0x12345 - 10 - 5 = 0x12336
    let mut ctx = resolvable_context(0x12345, STB_LOCAL, R_X86_64_PC32, true);
    assert_eq!(fix_same_section_relocations(&mut ctx), Ok(()));
    assert!(ctx.relas[0].is_already_resolved);
    let mut expected = vec![0x11; 16];
    expected[11] = 0x36;
    expected[12] = 0x23;
    expected[13] = 0x01;
    expected[14] = 0x00;
    assert_eq!(ctx.sections[0].code, expected);

    // backwards: 0 - 10 - 5 = -15
    let mut ctx = resolvable_context(0, STB_LOCAL, R_X86_64_32S, true);
    assert_eq!(fix_same_section_relocations(&mut ctx), Ok(()));
    assert_eq!(&ctx.sections[0].code[11..15], &[0xf1, 0xff, 0xff, 0xff]);

    // with an adjustment: 20 - 10 - 5 + 3 = 8
    let mut ctx = resolvable_context(20, STB_LOCAL, R_X86_64_PC32, false);
    ctx.relas[0].adjust = 3;
    assert_eq!(fix_same_section_relocations(&mut ctx), Ok(()));
    assert_eq!(&ctx.sections[0].code[11..15], &[8, 0, 0, 0]);
}

#[test]
fn same_section_pass_leaves_the_rest() {
    let untouched = vec![0x11; 16];
    // global symbol
    let mut ctx = resolvable_context(20, STB_GLOBAL, R_X86_64_PC32, true);
    assert_eq!(fix_same_section_relocations(&mut ctx), Ok(()));
    assert!(!ctx.relas[0].is_already_resolved);
    assert_eq!(ctx.sections[0].code, untouched);
    // neither a jump nor PC-relative
    let mut ctx = resolvable_context(20, STB_LOCAL, R_X86_64_32S, false);
    assert_eq!(fix_same_section_relocations(&mut ctx), Ok(()));
    assert!(!ctx.relas[0].is_already_resolved);
    // another section
    let mut ctx = resolvable_context(20, STB_LOCAL, R_X86_64_PC32, true);
    ctx.symbols[0].section = ".data".to_owned();
    assert_eq!(fix_same_section_relocations(&mut ctx), Ok(()));
    assert!(!ctx.relas[0].is_already_resolved);
    // undefined symbol
    let mut ctx = resolvable_context(20, STB_LOCAL, R_X86_64_PC32, true);
    ctx.relas[0].uses = "g".to_owned();
    assert_eq!(fix_same_section_relocations(&mut ctx), Ok(()));
    assert!(!ctx.relas[0].is_already_resolved);
    assert_eq!(ctx.sections[0].code, untouched);
}

#[test]
fn same_section_pass_errors() {
    // the place lies outside the section
    let mut ctx = resolvable_context(20, STB_LOCAL, R_X86_64_PC32, true);
    ctx.relas[0].instr.addr = 12;
    assert_eq!(
        fix_same_section_relocations(&mut ctx),
        Err(AsmError {
            kind: ErrorKind::InconsistentSymbol,
            loc: None
        })
    );
    // the section does not exist
    let mut ctx = resolvable_context(20, STB_LOCAL, R_X86_64_PC32, true);
    ctx.sections[0].name = ".other".to_owned();
    assert_eq!(
        fix_same_section_relocations(&mut ctx),
        Err(AsmError {
            kind: ErrorKind::InconsistentSymbol,
            loc: None
        })
    );
    // the displacement does not fit 32 bits
    let mut ctx = resolvable_context(0x1_0000_0000, STB_LOCAL, R_X86_64_PC32, true);
    assert_eq!(
        fix_same_section_relocations(&mut ctx),
        Err(AsmError {
            kind: ErrorKind::TooLarge,
            loc: None
        })
    );
}

#[test]
fn statements_and_their_errors() {
    assert_eq!(mnemonic("movq"), Some(Mnemonic::Mov(Some(DataSizeSuffix::Quad))));
    assert_eq!(mnemonic("mov"), Some(Mnemonic::Mov(None)));
    assert_eq!(mnemonic(".globl"), Some(Mnemonic::Symbol(InstrKind::Global)));
    assert_eq!(mnemonic("MOVQ"), None);
    assert_eq!(
        encode("nop\n  frob %rax").map(|_| ()),
        Err(AsmError {
            kind: ErrorKind::UnknownMnemonic,
            loc: Some(Location { line: 1, column: 2 }),
        })
    );
    assert_eq!(
        encode(", nop").map(|_| ()),
        Err(AsmError {
            kind: ErrorKind::UnexpectedToken,
            loc: Some(Location { line: 0, column: 0 }),
        })
    );
    assert_eq!(
        encode(".global").map(|_| ()),
        Err(AsmError {
            kind: ErrorKind::MissingToken,
            loc: None
        })
    );
    assert_eq!(
        encode(".section .a, b").map(|_| ()),
        Err(AsmError {
            kind: ErrorKind::UnexpectedToken,
            loc: Some(Location {
                line: 0,
                column: 13
            }),
        })
    );
    assert_eq!(
        encode("call 5").map(|_| ()),
        Err(AsmError {
            kind: ErrorKind::InvalidOperand,
            loc: Some(Location { line: 0, column: 0 }),
        })
    );
    assert_eq!(
        encode("movq $1f, %rax").map(|_| ()),
        Err(AsmError {
            kind: ErrorKind::InvalidNumber,
            loc: Some(Location { line: 0, column: 0 }),
        })
    );
    assert_eq!(
        encode("movq $1/0, %rax").map(|_| ()),
        Err(AsmError {
            kind: ErrorKind::Arithmetic,
            loc: Some(Location { line: 0, column: 0 }),
        })
    );
    let mut e = Encoder::new(Vec::new());
    assert_eq!(
        e.statement(),
        Err(AsmError {
            kind: ErrorKind::MissingToken,
            loc: None
        })
    );
    assert_eq!(e.encode(), Ok(()));
}

#[test]
fn sections_are_created_on_first_use_in_declaration_order() {
    let e = encode("nop\n.data\nnop\n.section .rodata\n.text\nret").unwrap();
    let names: Vec<&str> = e.ctx.sections.iter().map(|s| s.name.as_str()).collect();
    assert_eq!(names, vec![".text", ".data", ".rodata"]);
    assert_eq!(find_section(&e.ctx.sections, &".data".to_owned()), Some(1));
    assert_eq!(find_section(&e.ctx.sections, &".bss".to_owned()), None);
    assert_eq!(e.ctx.sections[0].addr, 2);
    assert_eq!(e.ctx.sections[1].addr, 1);
    assert_eq!(e.ctx.sections[2].addr, 0);
    assert_eq!(e.current_section_name, ".text");
    let symbols: Vec<&str> = e.ctx.symbols.iter().map(|s| s.symbol_name.as_str()).collect();
    assert_eq!(symbols, vec![".data", ".rodata", ".text"]);
    // the symbol of .text was defined when the section held one byte
    assert_eq!(e.ctx.symbols[2].addr, 1);
}

#[test]
fn rex_of_wider_arguments_joins_their_bits() {
    assert_eq!(rex(2, 0, 0, 0), 0x50);
    assert_eq!(rex(0, 0, 0, 0x0f), 0x4f);
    assert_eq!(rex(0xff, 0xff, 0xff, 0xff), 0xff);
}

#[test]
fn byte_registers_and_the_rex_prefix() {
    let e = encode("movb %sil, %al\nmovb %ah, %al\nmovb $7, %dil\nmovb %bl, %spl").unwrap();
    assert_eq!(
        codes(&e, 0),
        vec![
            vec![0x40, 0x88, 0xf0],
            vec![0x88, 0xe0],
            vec![0x40, 0xc6, 0xc7, 0x07],
            vec![0x40, 0x88, 0xdc],
        ]
    );
}

#[test]
fn branch_with_offset_from_a_label() {
    // forwards, settled by address assignment: l + 2 - 0 - 5, with l at 7
    let mut e = encode(".text\njmp l + 2\nnop\nnop\nl:\nret\nret\nret").unwrap();
    assert_eq!(e.ctx.relas[0].adjust, 2);
    assert_eq!(e.assign_addresses(), Ok(()));
    assert_eq!(&e.ctx.sections[0].code[..5], &[0xe9, 0x04, 0, 0, 0]);
    assert!(e.ctx.relas[0].is_already_resolved);

    // backwards, written at once: l - 1 - (2 + 5), with l at 0
    let e = encode("l:\nnop\nnop\ncall l - 1").unwrap();
    assert_eq!(e.instrs[0][3].code, vec![0xe8, 0xf8, 0xff, 0xff, 0xff]);
    assert!(e.ctx.relas.is_empty());
}

#[test]
fn relocation_of_immediate_in_memory_move() {
    let e = encode("movq $foo, (%rax)\nmovl $1, foo(%rip)").unwrap();
    assert_eq!(e.instrs[0][0].code, vec![0x48, 0xc7, 0x00, 0, 0, 0, 0]);
    assert_eq!(e.ctx.relas[0].offset, 3);
    assert_eq!(e.ctx.relas[0].rtype, R_X86_64_32S);
    assert_eq!(
        e.instrs[0][1].code,
        vec![0xc7, 0x05, 0, 0, 0, 0, 1, 0, 0, 0]
    );
    assert_eq!(e.ctx.relas[1].offset, 2);
    assert_eq!(e.ctx.relas[1].rtype, R_X86_64_PC32);
    assert_eq!(e.ctx.relas[1].instr.addr, 7);
}
