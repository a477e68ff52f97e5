use x86asm::elf::constants::{R_X86_64_32S, R_X86_64_PC32};
use x86asm::encoder::arch::x86_64::registers::{get_reg_info_by, DataSizeSuffix};
use x86asm::encoder::arch::x86_64::Expr;
use x86asm::encoder::memory::{memory_operand, push_mem, MemOperand};
use x86asm::encoder::parser::parse_operand;
use x86asm::encoder::statement::parse;
use x86asm::encoder::Encoder;
use x86asm::error::{AsmError, ErrorKind};
use x86asm::lexer::{tokenize, Location, Token, TokenKind};

fn encode(source: &str) -> Result<Encoder, AsmError> {
    parse(tokenize(source)?)
}

fn code(source: &str) -> Vec<u8> {
    let e = encode(source).unwrap();
    assert!(e.ctx.relas.is_empty());
    e.instrs[0][0].code.clone()
}

fn invalid(source: &str) {
    assert_eq!(
        encode(source).map(|_| ()),
        Err(AsmError {
            kind: ErrorKind::InvalidOperand,
            loc: Some(Location { line: 0, column: 0 }),
        })
    );
}

/// Tokens of a statement whose words are given one by one, so that
/// register names with digits can be written.
fn words(parts: &[&str]) -> Vec<Token> {
    parts
        .iter()
        .enumerate()
        .map(|(i, p)| Token {
            kind: match *p {
                "%" => TokenKind::Percent,
                "," => TokenKind::Comma,
                "(" => TokenKind::LParen,
                ")" => TokenKind::RParen,
                "$" => TokenKind::Dolor,
                w if w.chars().all(|c| c.is_ascii_digit()) => TokenKind::Number(w.to_owned()),
                w => TokenKind::Ident(w.to_owned()),
            },
            loc: Location { line: 0, column: i },
        })
        .collect()
}

#[test]
fn load_and_store_through_a_register() {
    assert_eq!(code("movq (%rax), %rcx"), vec![0x48, 0x8b, 0x08]);
    assert_eq!(code("movq %rcx, (%rax)"), vec![0x48, 0x89, 0x08]);
    assert_eq!(code("movl %eax, (%rdi)"), vec![0x89, 0x07]);
    assert_eq!(code("movw (%rsi), %dx"), vec![0x66, 0x8b, 0x16]);
    assert_eq!(code("movb %al, (%rbx)"), vec![0x88, 0x03]);
    assert_eq!(code("movb (%rbx), %cl"), vec![0x8a, 0x0b]);
    assert_eq!(code("mov %rax, (%rbx)"), vec![0x48, 0x89, 0x03]);
    assert_eq!(code("mov (%rbx), %eax"), vec![0x8b, 0x03]);
}

#[test]
fn displacement_selects_the_addressing_mode() {
    // none
    assert_eq!(code("movq 0(%rbx), %rax"), vec![0x48, 0x8b, 0x03]);
    // 8 bits
    assert_eq!(code("movq 8(%rbp), %rax"), vec![0x48, 0x8b, 0x45, 0x08]);
    assert_eq!(code("movq -128(%rbx), %rax"), vec![0x48, 0x8b, 0x43, 0x80]);
    assert_eq!(code("movq 127(%rbx), %rax"), vec![0x48, 0x8b, 0x43, 0x7f]);
    // 32 bits
    assert_eq!(
        code("movq 128(%rbx), %rax"),
        vec![0x48, 0x8b, 0x83, 0x80, 0x00, 0x00, 0x00]
    );
    assert_eq!(
        code("movq -129(%rbx), %rax"),
        vec![0x48, 0x8b, 0x83, 0x7f, 0xff, 0xff, 0xff]
    );
    assert_eq!(
        code("movq 256(%rbx), %rax"),
        vec![0x48, 0x8b, 0x83, 0x00, 0x01, 0x00, 0x00]
    );
    // RBP cannot go without a displacement
    assert_eq!(code("movq (%rbp), %rax"), vec![0x48, 0x8b, 0x45, 0x00]);
}

#[test]
fn stack_pointer_and_index_need_a_sib_byte() {
    assert_eq!(code("movq (%rsp), %rax"), vec![0x48, 0x8b, 0x04, 0x24]);
    assert_eq!(code("movq 16(%rsp), %rdx"), vec![0x48, 0x8b, 0x54, 0x24, 0x10]);
    assert_eq!(
        code("movq -8(%rbx,%rcx,4), %rax"),
        vec![0x48, 0x8b, 0x44, 0x8b, 0xf8]
    );
    assert_eq!(code("movq (%rax,%rdx), %rcx"), vec![0x48, 0x8b, 0x0c, 0x10]);
    assert_eq!(code("movq (%rax,%rdx,8), %rcx"), vec![0x48, 0x8b, 0x0c, 0xd0]);
    assert_eq!(code("movl (%rbp,%rsi,2), %eax"), vec![0x8b, 0x44, 0x75, 0x00]);
}

#[test]
fn operands_without_base() {
    assert_eq!(
        code("movl 4096(), %eax"),
        vec![0x8b, 0x04, 0x25, 0x00, 0x10, 0x00, 0x00]
    );
    assert_eq!(
        code("movq 8(,%rcx,2), %rax"),
        vec![0x48, 0x8b, 0x04, 0x4d, 0x08, 0x00, 0x00, 0x00]
    );
}

#[test]
fn high_registers_set_the_rex_bits() {
    let e = parse(words(&["movq", "(", "%", "r12", ")", ",", "%", "r9"])).unwrap();
    assert_eq!(e.instrs[0][0].code, vec![0x4d, 0x8b, 0x0c, 0x24]);
    let e = parse(words(&["movq", "(", "%", "r13", ")", ",", "%", "rax"])).unwrap();
    assert_eq!(e.instrs[0][0].code, vec![0x49, 0x8b, 0x45, 0x00]);
    let e = parse(words(&[
        "movq", "(", "%", "rax", ",", "%", "r9", ",", "8", ")", ",", "%", "rbx",
    ]))
    .unwrap();
    assert_eq!(e.instrs[0][0].code, vec![0x4a, 0x8b, 0x1c, 0xc8]);
    let e = parse(words(&["movl", "%", "r8d", ",", "(", "%", "r15", ")"])).unwrap();
    assert_eq!(e.instrs[0][0].code, vec![0x45, 0x89, 0x07]);
    // R12 may be an index
    let e = parse(words(&[
        "movq", "(", "%", "rax", ",", "%", "r12", ")", ",", "%", "rax",
    ]))
    .unwrap();
    assert_eq!(e.instrs[0][0].code, vec![0x4a, 0x8b, 0x04, 0x20]);
}

#[test]
fn immediate_to_memory() {
    assert_eq!(code("movb $1, (%rax)"), vec![0xc6, 0x00, 0x01]);
    assert_eq!(
        code("movq $1, 8(%rax)"),
        vec![0x48, 0xc7, 0x40, 0x08, 0x01, 0x00, 0x00, 0x00]
    );
    assert_eq!(
        code("movl $-2, (%rsp)"),
        vec![0xc7, 0x04, 0x24, 0xfe, 0xff, 0xff, 0xff]
    );
    assert_eq!(code("movw $258, (%rcx)"), vec![0x66, 0xc7, 0x01, 0x02, 0x01]);
    // the size must be written
    invalid("mov $1, (%rax)");
}

#[test]
fn relative_to_the_instruction_pointer() {
    assert_eq!(
        code("movq 16(%rip), %rax"),
        vec![0x48, 0x8b, 0x05, 0x10, 0x00, 0x00, 0x00]
    );
    let e = encode("leaq msg + 4(%rip), %rdi").unwrap();
    assert_eq!(
        e.instrs[0][0].code,
        vec![0x48, 0x8d, 0x3d, 0x00, 0x00, 0x00, 0x00]
    );
    assert_eq!(e.ctx.relas.len(), 1);
    assert_eq!(e.ctx.relas[0].uses, "msg");
    assert_eq!(e.ctx.relas[0].offset, 3);
    assert_eq!(e.ctx.relas[0].rtype, R_X86_64_PC32);
    assert_eq!(e.ctx.relas[0].adjust, 4);
    invalid("movq (%rip,%rax), %rax");
    invalid("movq (%rax,%rip), %rax");
}

#[test]
fn symbol_in_displacement_asks_for_relocation() {
    let e = encode("movq table(%rbx), %rax").unwrap();
    assert_eq!(
        e.instrs[0][0].code,
        vec![0x48, 0x8b, 0x83, 0x00, 0x00, 0x00, 0x00]
    );
    assert_eq!(e.ctx.relas[0].uses, "table");
    assert_eq!(e.ctx.relas[0].offset, 3);
    assert_eq!(e.ctx.relas[0].rtype, R_X86_64_32S);
    assert_eq!(e.ctx.relas[0].adjust, 0);

    let e = encode("movl $7, table - 8(,%rcx,4)").unwrap();
    assert_eq!(
        e.instrs[0][0].code,
        vec![0xc7, 0x04, 0x8d, 0, 0, 0, 0, 7, 0, 0, 0]
    );
    assert_eq!(e.ctx.relas[0].offset, 3);
    assert_eq!(e.ctx.relas[0].adjust, -8);

    let e = encode("movl $value, (%rax)").unwrap();
    assert_eq!(e.instrs[0][0].code, vec![0xc7, 0x00, 0, 0, 0, 0]);
    assert_eq!(e.ctx.relas[0].uses, "value");
    assert_eq!(e.ctx.relas[0].offset, 2);

    assert_eq!(
        encode("movl $value, table(%rax)").map(|_| ()),
        Err(AsmError {
            kind: ErrorKind::AmbiguousRelocation,
            loc: Some(Location { line: 0, column: 0 }),
        })
    );
    assert_eq!(
        encode("movq a + b(%rax), %rcx").map(|_| ()),
        Err(AsmError {
            kind: ErrorKind::AmbiguousRelocation,
            loc: Some(Location { line: 0, column: 0 }),
        })
    );
}

#[test]
fn lea_takes_an_address() {
    assert_eq!(code("leaq 8(%rsp), %rax"), vec![0x48, 0x8d, 0x44, 0x24, 0x08]);
    assert_eq!(code("lea (%rax), %ecx"), vec![0x8d, 0x08]);
    assert_eq!(code("leaw (%rax,%rax,2), %dx"), vec![0x66, 0x8d, 0x14, 0x40]);
    invalid("lea (%rax), %cl");
    invalid("leaq %rax, %rcx");
    invalid("leaq (%rax), (%rcx)");
    invalid("leal (%rax), %rcx");
}

#[test]
fn memory_operands_that_cannot_be_encoded() {
    invalid("movq (%eax), %rcx");
    invalid("movq (%rax,%rsp), %rcx");
    invalid("movq (%rax,%ecx), %rcx");
    invalid("movq (%rax,%rcx,3), %rcx");
    invalid("movq (%rax,%rcx,foo), %rcx");
    invalid("movq (%rax), (%rcx)");
    invalid("movl (%rax), %rcx");
    assert_eq!(
        encode("movq 2147483648(%rax), %rcx").map(|_| ()),
        Err(AsmError {
            kind: ErrorKind::TooLarge,
            loc: Some(Location { line: 0, column: 0 }),
        })
    );
}

#[test]
fn memory_operand_is_checked_and_evaluated() {
    let tokens = tokenize("foo+4(%rbx,%rcx,8)").unwrap();
    let mut index = 0;
    let e = parse_operand(&mut index, &tokens).unwrap();
    assert_eq!(
        memory_operand(&e),
        Ok(MemOperand {
            base: Some(get_reg_info_by("RBX").unwrap()),
            index: Some(get_reg_info_by("RCX").unwrap()),
            scale: 3,
            disp: 4,
            symbol: Some("foo".to_owned()),
        })
    );
    assert_eq!(
        memory_operand(&Expr::Number("1".to_owned())),
        Err(AsmError {
            kind: ErrorKind::InvalidOperand,
            loc: None
        })
    );
    let rax = get_reg_info_by("RAX").unwrap();
    assert_eq!(rax.size, DataSizeSuffix::Quad);
    let m = MemOperand {
        base: Some(rax),
        index: None,
        scale: 0,
        disp: 0x1234,
        symbol: None,
    };
    let mut code = vec![0x90];
    assert_eq!(push_mem(&mut code, 2, &m), None);
    assert_eq!(code, vec![0x90, 0x90, 0x34, 0x12, 0x00, 0x00]);
}

#[test]
fn scalar_moves_between_xmm_registers_and_memory() {
    let e = parse(words(&["movss", "%", "xmm1", ",", "%", "xmm0"])).unwrap();
    assert_eq!(e.instrs[0][0].code, vec![0xf3, 0x0f, 0x10, 0xc1]);
    let e = parse(words(&["movsd", "%", "xmm9", ",", "%", "xmm2"])).unwrap();
    assert_eq!(e.instrs[0][0].code, vec![0xf2, 0x41, 0x0f, 0x10, 0xd1]);
    let e = parse(words(&["movss", "(", "%", "rax", ")", ",", "%", "xmm0"])).unwrap();
    assert_eq!(e.instrs[0][0].code, vec![0xf3, 0x0f, 0x10, 0x00]);
    let e = parse(words(&[
        "movsd", "%", "xmm8", ",", "8", "(", "%", "rsp", ")",
    ]))
    .unwrap();
    assert_eq!(
        e.instrs[0][0].code,
        vec![0xf2, 0x44, 0x0f, 0x11, 0x44, 0x24, 0x08]
    );
    assert_eq!(
        parse(words(&["movss", "%", "rax", ",", "%", "xmm0"])).map(|_| ()),
        Err(AsmError {
            kind: ErrorKind::InvalidOperand,
            loc: Some(Location { line: 0, column: 0 }),
        })
    );
}
