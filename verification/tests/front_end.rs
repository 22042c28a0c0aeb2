use asm_sim::assembler::Assembler;
use asm_sim::ast::{AsmLine, Directive, MemAddr, Op, Operand, RegRef, RegWidth, Register, Size};
use asm_sim::error::SimError;
use asm_sim::lexer::{Lexer, Token};
use asm_sim::parser::Parser;
use asm_sim::program::{DATA_BASE, TEXT_BASE};

fn tokens(src: &str) -> Vec<(Token, usize)> {
    Lexer::new(src).tokenize().unwrap()
}

fn parse(src: &str) -> Result<Vec<AsmLine>, SimError> {
    Parser::new(tokens(src)).parse()
}

fn qword(reg: Register) -> RegRef {
    RegRef { reg, width: RegWidth::Qword }
}

#[test]
fn lexer_splits_an_instruction() {
    let ts = tokens("  mov rax, [rbx+8] ; load\nret");
    let expected = vec![
        (Token::Ident("mov".to_string()), 1),
        (Token::Ident("rax".to_string()), 1),
        (Token::Comma, 1),
        (Token::LBracket, 1),
        (Token::Ident("rbx".to_string()), 1),
        (Token::Plus, 1),
        (Token::Number(8), 1),
        (Token::RBracket, 1),
        (Token::Newline, 1),
        (Token::Ident("ret".to_string()), 2),
        (Token::Eof, 2),
    ];
    assert_eq!(ts, expected);
}

#[test]
fn lexer_reads_number_forms() {
    let ts = tokens("0x1F 0b101 0o17 1_000 -5 0xffffffffffffffff -0x10");
    let nums: Vec<i64> = ts
        .iter()
        .filter_map(|(t, _)| if let Token::Number(n) = t { Some(*n) } else { None })
        .collect();
    assert_eq!(nums, vec![31, 5, 15, 1000, -5, -1, -16]);
}

#[test]
fn lexer_minus_without_digit_is_operator() {
    let ts = tokens("- x");
    assert_eq!(ts[0].0, Token::Minus);
    assert_eq!(ts[1].0, Token::Ident("x".to_string()));
}

#[test]
fn lexer_string_escapes() {
    let ts = tokens("\"a\\n\\t\\0\\\\\\\"\\q\"");
    assert_eq!(ts[0].0, Token::StringLit(vec![b'a', 10, 9, 0, b'\\', b'"', b'q']));
}

#[test]
fn lexer_comments_and_hash() {
    let ts = tokens("# one\nnop ; two\n");
    let kinds: Vec<Token> = ts.into_iter().map(|(t, _)| t).collect();
    assert_eq!(kinds, vec![Token::Newline, Token::Ident("nop".to_string()), Token::Newline, Token::Eof]);
}

#[test]
fn lexer_error_positions() {
    match Lexer::new("mov rax, 99999999999999999999").tokenize() {
        Err(SimError::Lex { line, col, msg }) => {
            assert_eq!((line, col), (1, 10));
            assert_eq!(msg, "number overflow: 99999999999999999999");
        },
        _ => panic!("expected a lex error"),
    }
    match Lexer::new("\n  0x").tokenize() {
        Err(SimError::Lex { line, col, msg }) => {
            assert_eq!((line, col), (2, 3));
            assert_eq!(msg, "expected digits");
        },
        _ => panic!("expected a lex error"),
    }
    match Lexer::new("db \"abc").tokenize() {
        Err(SimError::Lex { line, col, msg }) => {
            assert_eq!((line, col), (1, 4));
            assert_eq!(msg, "unterminated string");
        },
        _ => panic!("expected a lex error"),
    }
    match Lexer::new("db \"abc\\").tokenize() {
        Err(SimError::Lex { msg, .. }) => assert_eq!(msg, "unterminated escape"),
        _ => panic!("expected a lex error"),
    }
    match Lexer::new("a $").tokenize() {
        Err(e) => assert_eq!(e.to_string(), "lex error at 1:3: unexpected character: '$'"),
        _ => panic!("expected a lex error"),
    }
}

#[test]
fn lexer_signed_decimal_limits() {
    assert_eq!(tokens("9223372036854775807")[0].0, Token::Number(i64::MAX));
    assert_eq!(tokens("-9223372036854775807")[0].0, Token::Number(-i64::MAX));
    assert!(Lexer::new("9223372036854775808").tokenize().is_err());
    assert!(Lexer::new("-0x8000000000000000").tokenize().is_err());
}

#[test]
fn parser_reads_memory_operand() {
    let lines = parse("mov qword ptr [rbx + rcx*8 - 16], 7\n").unwrap();
    assert_eq!(lines.len(), 1);
    match &lines[0] {
        AsmLine::Instruction(i) => {
            assert_eq!(i.op, Op::Mov);
            assert_eq!(i.line, 1);
            let mem = MemAddr {
                size: Some(Size::Qword),
                base: Some(qword(Register::Rbx)),
                index: Some(qword(Register::Rcx)),
                scale: 8,
                disp: -16,
                label: None,
            };
            assert_eq!(i.operands, vec![Operand::Memory(mem), Operand::Immediate(7)]);
        },
        _ => panic!("expected an instruction"),
    }
}

#[test]
fn parser_register_names_ignore_case() {
    let lines = parse("MOV AL, Bh\nadd R9D, 1\nxchg ax, r15w\n").unwrap();
    match (&lines[0], &lines[1], &lines[2]) {
        (AsmLine::Instruction(a), AsmLine::Instruction(b), AsmLine::Instruction(c)) => {
            assert_eq!(a.operands, vec![
                Operand::Register(RegRef { reg: Register::Rax, width: RegWidth::Byte }),
                Operand::Register(RegRef { reg: Register::Rbx, width: RegWidth::ByteHi }),
            ]);
            assert_eq!(b.operands[0], Operand::Register(RegRef { reg: Register::R9, width: RegWidth::Dword }));
            assert_eq!(c.operands[1], Operand::Register(RegRef { reg: Register::R15, width: RegWidth::Word }));
        },
        _ => panic!("expected instructions"),
    }
}

#[test]
fn parser_mnemonic_aliases() {
    let lines = parse("sal rax, 1\njz x\njnge x\njb x\njae x\n").unwrap();
    let ops: Vec<Op> = lines
        .iter()
        .map(|l| if let AsmLine::Instruction(i) = l { i.op } else { panic!("not an instruction") })
        .collect();
    assert_eq!(ops, vec![Op::Shl, Op::Je, Op::Jl, Op::Jc, Op::Jnc]);
}

#[test]
fn parser_labels_and_constants() {
    let lines = parse("start:\nn equ 5\nm: equ 6\nbuf db 1, 2\n").unwrap();
    assert_eq!(lines.len(), 5);
    assert!(matches!(&lines[0], AsmLine::Label(s) if s == "start"));
    assert!(matches!(&lines[1], AsmLine::Directive(Directive::Equ(s, 5)) if s == "n"));
    assert!(matches!(&lines[2], AsmLine::Directive(Directive::Equ(s, 6)) if s == "m"));
    assert!(matches!(&lines[3], AsmLine::Label(s) if s == "buf"));
    assert!(matches!(&lines[4], AsmLine::Directive(Directive::Db(b)) if *b == vec![1u8, 2]));
}

#[test]
fn parser_data_directives() {
    let lines = parse("db \"hi\", 0x141\ndw 1, 0xFFFF\ndd 7\ndq 9\ntimes 3 db 0xAA\nsection .data\nglobal main\n").unwrap();
    assert!(matches!(&lines[0], AsmLine::Directive(Directive::Db(b)) if *b == vec![b'h', b'i', 0x41]));
    assert!(matches!(&lines[1], AsmLine::Directive(Directive::Dw(w)) if *w == vec![1u16, 0xFFFF]));
    assert!(matches!(&lines[2], AsmLine::Directive(Directive::Dd(w)) if *w == vec![7u32]));
    assert!(matches!(&lines[3], AsmLine::Directive(Directive::Dq(w)) if *w == vec![9u64]));
    match &lines[4] {
        AsmLine::Directive(Directive::Times { count, inner }) => {
            assert_eq!(*count, 3);
            assert!(matches!(&**inner, Directive::Db(b) if *b == vec![0xAAu8]));
        },
        _ => panic!("expected times"),
    }
    assert!(matches!(&lines[5], AsmLine::Directive(Directive::Section(s)) if s == ".data"));
    assert!(matches!(&lines[6], AsmLine::Directive(Directive::Global(s)) if s == "main"));
}

#[test]
fn parser_errors() {
    let msg = |src: &str| match parse(src) {
        Err(SimError::Parse { line, msg }) => (line, msg),
        _ => panic!("expected a parse error for {:?}", src),
    };
    assert_eq!(msg("\n\ndw 70000\n"), (3, "dw value out of range: TryFromIntError(())".to_string()));
    assert_eq!(msg("dd -1\n"), (1, "dd value out of range: TryFromIntError(())".to_string()));
    assert_eq!(msg("dq -1\n"), (1, "dq value out of range: TryFromIntError(())".to_string()));
    assert_eq!(msg("frob rax\n"), (1, "unknown instruction or directive: 'frob'".to_string()));
    assert_eq!(msg("mov [rax\n"), (1, "unexpected token in memory expression: Newline".to_string()));
    assert_eq!(msg("mov [rax*]\n"), (1, "expected scale after *".to_string()));
    assert_eq!(msg("mov [rax-rbx]\n"), (1, "expected number after '-' in memory expression".to_string()));
    assert_eq!(msg("mov rax, ,\n"), (1, "expected operand, got Comma".to_string()));
    assert_eq!(msg("section 5\n"), (1, "expected section name".to_string()));
    assert_eq!(msg("extern\n"), (1, "expected symbol name".to_string()));
    assert_eq!(msg("times x\n"), (1, "expected count after times".to_string()));
    assert_eq!(msg("times 2 dw 1\n"), (1, "expected directive after times".to_string()));
    assert_eq!(msg("times 2 5\n"), (1, "expected directive after times count".to_string()));
    assert_eq!(msg("x equ y\n"), (1, "expected number after equ".to_string()));
    assert_eq!(msg("db label\n"), (1, "unexpected ident 'label' in db".to_string()));
    assert_eq!(msg("5\n"), (1, "unexpected token: Number(5)".to_string()));
}

#[test]
fn assembler_lays_out_symbols_and_data() {
    let src = "
section .data
a db 1, 2, 3
w dw 0x1234
d dd 0xAABBCCDD
q dq 1
t times 2 db 9
k equ 77
section .text
_start:
    mov rax, a
next:
    ret
";
    let lines = parse(src).unwrap();
    let prog = Assembler::new(lines).assemble().unwrap();
    assert_eq!(prog.data, vec![1, 2, 3, 0x34, 0x12, 0xDD, 0xCC, 0xBB, 0xAA, 1, 0, 0, 0, 0, 0, 0, 0, 9, 9]);
    assert_eq!(prog.symbols.get("a"), Some(&(DATA_BASE as i64)));
    assert_eq!(prog.symbols.get("w"), Some(&(DATA_BASE as i64 + 3)));
    assert_eq!(prog.symbols.get("d"), Some(&(DATA_BASE as i64 + 5)));
    assert_eq!(prog.symbols.get("q"), Some(&(DATA_BASE as i64 + 9)));
    assert_eq!(prog.symbols.get("t"), Some(&(DATA_BASE as i64 + 17)));
    assert_eq!(prog.symbols.get("k"), Some(&77));
    assert_eq!(prog.symbols.get("_start"), Some(&(TEXT_BASE as i64)));
    assert_eq!(prog.symbols.get("next"), Some(&(TEXT_BASE as i64 + 1)));
    assert_eq!(prog.entry, TEXT_BASE);
    assert_eq!(prog.instructions.len(), 2);
    assert!(prog.instructions.iter().all(|l| matches!(l, AsmLine::Instruction(_))));
}

#[test]
fn assembler_entry_is_start_label() {
    let lines = parse("helper:\n    ret\n_start:\n    ret\n").unwrap();
    let prog = Assembler::new(lines).assemble().unwrap();
    assert_eq!(prog.entry, TEXT_BASE + 1);
}

#[test]
fn assembler_ignores_data_directives_in_text() {
    let lines = parse("db 1, 2\nret\n").unwrap();
    let prog = Assembler::new(lines).assemble().unwrap();
    assert!(prog.data.is_empty());
    assert_eq!(prog.entry, TEXT_BASE);
}

#[test]
fn assembler_rejects_duplicate_label() {
    let lines = parse("x:\nret\nx:\n").unwrap();
    match Assembler::new(lines).assemble() {
        Err(e) => assert_eq!(e.to_string(), "assemble error: duplicate label 'x'"),
        Ok(_) => panic!("expected a duplicate label error"),
    }
}

#[test]
fn assembler_rejects_undefined_memory_label() {
    let lines = parse("_start:\n\n    mov rax, [table + 8]\n").unwrap();
    match Assembler::new(lines).assemble() {
        Err(e) => assert_eq!(e.to_string(), "assemble error: undefined symbol 'table' at line 3"),
        Ok(_) => panic!("expected an undefined symbol error"),
    }
}

#[test]
fn error_display_forms() {
    let e = SimError::Parse { line: 4, msg: "bad".to_string() };
    assert_eq!(e.to_string(), "parse error at line 4: bad");
    let e = SimError::Runtime { rip: 0x1abc, msg: "oops".to_string() };
    assert_eq!(e.to_string(), "runtime error at rip=0x1abc: oops");
    let e = SimError::Lex { line: 2, col: 9, msg: "x".to_string() };
    assert_eq!(e.to_string(), "lex error at 2:9: x");
}

#[test]
fn syntax_in_messages_reads_as_its_debug_form() {
    let msg = |src: &str| match parse(src) {
        Err(SimError::Parse { msg, .. }) => msg,
        _ => panic!("expected a parse error for {:?}", src),
    };
    assert_eq!(msg("\"hi\"\n"), format!("unexpected token: {:?}", Token::StringLit(vec![104, 105])));
    assert_eq!(msg("\"\"\n"), format!("unexpected token: {:?}", Token::StringLit(vec![])));
    assert_eq!(msg(":\n"), format!("unexpected token: {:?}", Token::Colon));
    assert_eq!(msg("mov rax, ]\n"), format!("expected operand, got {:?}", Token::RBracket));
    assert_eq!(msg("mov [rax ,]\n"), format!("unexpected token in memory expression: {:?}", Token::Comma));
    let target = Operand::Memory(MemAddr {
        size: Some(Size::Byte),
        base: Some(RegRef { reg: Register::Rbx, width: RegWidth::Dword }),
        index: Some(RegRef { reg: Register::Rcx, width: RegWidth::Qword }),
        scale: 4,
        disp: -8,
        label: Some("tbl".to_string()),
    });
    let mut sim = asm_sim::simulator::Simulator::new("section .data\ntbl db 1\nsection .text\n_start:\n    jmp byte [tbl + ebx + rcx*4 - 8]\n");
    assert_eq!(sim.run(), 1);
    assert_eq!(
        sim.take_stderr(),
        format!("[runtime error] runtime error at rip=0x1001: invalid jump target: {:?}\n", target)
    );
    let mut sim = asm_sim::simulator::Simulator::new("_start:\n    jmp -5\n");
    assert_eq!(sim.run(), 1);
    assert!(sim.take_stderr().contains("rip 0xfffffffffffffffb (idx "));
    let mut sim = asm_sim::simulator::Simulator::new("_start:\n    mov al, bh\n    push\n");
    sim.run();
    assert!(sim.take_stderr().ends_with(&format!("{:?} requires 1 operand(s), got 0\n", Op::Push)));
}
