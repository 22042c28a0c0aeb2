use asm_sim::assembler::Assembler;
use asm_sim::ast::Register;
use asm_sim::cpu::Cpu;
use asm_sim::error::SimError;
use asm_sim::lexer::Lexer;
use asm_sim::parser::Parser;
use asm_sim::simulator::Simulator;

struct Run {
    stdout: String,
    stderr: String,
    exit_code: i32,
}

/// Lexes, parses, assembles and loads a source into a processor.
fn build(src: &str) -> Result<Cpu, SimError> {
    let tokens = Lexer::new(src).tokenize()?;
    let lines = Parser::new(tokens).parse()?;
    let prog = Assembler::new(lines).assemble()?;
    Cpu::new(prog, false, 100_000)
}

/// Assembles and runs to completion; panics if assembly fails.
fn run(src: &str) -> Run {
    let mut sim = Simulator::new(src);
    assert!(sim.error().is_none(), "assembly error: {}", sim.error().unwrap_or_default());
    sim.run();
    Run { stdout: sim.take_stdout(), stderr: sim.take_stderr(), exit_code: sim.exit_code() }
}

/// Assembles and runs; the program must exit with code 0.
fn ok(src: &str) -> Run {
    let r = run(src);
    assert_eq!(r.exit_code, 0, "expected exit 0\nstdout: {:?}\nstderr: {:?}", r.stdout, r.stderr);
    r
}

fn assert_program(src: &str) {
    ok(src);
}

#[test]
fn error_on_empty_source() {
    // Nothing to run: assembling succeeds, the first step finds no instruction and halts.
    let mut sim = Simulator::new("");
    assert!(sim.error().is_none());
    assert_eq!(sim.step(), 1);
    assert!(sim.is_halted());
    assert_eq!(
        sim.take_stderr(),
        "[runtime error] runtime error at rip=0x1000: rip 0x1000 (idx 0) out of instruction range\n"
    );
}

#[test]
fn error_on_undefined_label() {
    let sim = Simulator::new(
        "
section .text
global _start
_start:
    jmp nonexistent
    mov rax, 60
    xor rdi, rdi
    syscall
",
    );
    assert!(sim.error().is_some(), "expected assemble error for undefined label");
    assert_eq!(sim.error().unwrap(), "undefined symbol 'nonexistent' at line 5");
    assert_eq!(sim.error_kind(), 3);
}

#[test]
fn error_message_is_string() {
    let sim = Simulator::new("this is not valid assembly @@@@");
    assert_eq!(sim.error(), Some("unexpected character: '@'".to_string()));
    assert_eq!((sim.error_kind(), sim.error_line(), sim.error_col()), (1, 1, 28));
}

#[test]
fn hello_world() {
    let r = ok("
section .data
    msg db \"Hello, World!\", 10
msg_len equ 14

section .text
global _start
_start:
    mov  rax, 1
    mov  rdi, 1
    lea  rsi, [msg]
    mov  rdx, msg_len
    syscall
    mov  rax, 60
    xor  rdi, rdi
    syscall
");
    assert_eq!(r.stdout, "Hello, World!\n");
}

#[test]
fn exit_code_propagated() {
    let r = run("
section .text
global _start
_start:
    mov rax, 60
    mov rdi, 42
    syscall
");
    assert_eq!(r.exit_code, 42);
}

#[test]
fn write_to_stderr() {
    let r = ok("
section .data
    msg db \"err\", 10
section .text
global _start
_start:
    mov rax, 1
    mov rdi, 2
    lea rsi, [msg]
    mov rdx, 4
    syscall
    mov rax, 60
    xor rdi, rdi
    syscall
");
    assert_eq!(r.stderr, "err\n");
    assert_eq!(r.stdout, "");
}

#[test]
fn step_advances_one_instruction() {
    let mut sim = Simulator::new(
        "
section .text
global _start
_start:
    mov rax, 1
    mov rbx, 2
    mov rax, 60
    xor rdi, rdi
    syscall
",
    );
    assert!(sim.error().is_none());
    assert!(!sim.is_halted());
    assert_eq!(sim.steps(), 0);
    sim.step();
    assert_eq!(sim.steps(), 1);
    assert_eq!(sim.regs().rax, 1);
    sim.step();
    assert_eq!(sim.steps(), 2);
    assert_eq!(sim.regs().rbx, 2);
    sim.run();
    assert!(sim.is_halted());
}

#[test]
fn step_halts_on_exit() {
    let mut sim = Simulator::new(
        "
section .text
global _start
_start:
    mov rax, 60
    xor rdi, rdi
    syscall
",
    );
    assert!(sim.error().is_none());
    while !sim.is_halted() {
        sim.step();
    }
    assert!(sim.is_halted());
    // Stepping past the halt changes nothing and reports the halt again.
    let steps = sim.steps();
    let result = sim.step();
    assert_ne!(result, 0);
    assert_eq!(result, 1);
    assert_eq!(sim.steps(), steps);
}

#[test]
fn take_stdout_drains_buffer() {
    let mut sim = Simulator::new(
        "
section .data
    a db \"a\"
    b db \"b\"
section .text
global _start
_start:
    mov rax, 1
    mov rdi, 1
    lea rsi, [a]
    mov rdx, 1
    syscall
    mov rax, 1
    mov rdi, 1
    lea rsi, [b]
    mov rdx, 1
    syscall
    mov rax, 60
    xor rdi, rdi
    syscall
",
    );
    assert!(sim.error().is_none());
    for _ in 0..7 {
        sim.step();
    }
    let first = sim.take_stdout();
    let empty = sim.take_stdout();
    assert_eq!(empty, "");
    while !sim.is_halted() {
        sim.step();
    }
    let second = sim.take_stdout();
    assert_eq!(first.clone() + &second, "ab");
    assert_eq!(first, "a");
}

#[test]
fn add_commutative() {
    assert_program(
        "
section .text
global _start
_start:
    mov  rax, 12345
    add  rax, 67890     ; rax = 80235
    mov  rbx, 67890
    add  rbx, 12345     ; rbx = 80235
    cmp  rax, rbx
    jne  .fail
    mov  rax, 60
    xor  rdi, rdi
    syscall
.fail:
    mov  rax, 60
    mov  rdi, 1
    syscall
",
    );
}

#[test]
fn sub_self_is_zero() {
    assert_program(
        "
section .text
global _start
_start:
    mov  rax, 0xdeadbeef
    sub  rax, rax
    test rax, rax
    jnz  .fail
    mov  rax, 60
    xor  rdi, rdi
    syscall
.fail:
    mov  rax, 60
    mov  rdi, 1
    syscall
",
    );
}

#[test]
fn xor_self_is_zero() {
    assert_program(
        "
section .text
global _start
_start:
    mov  rax, 0xffffffffffffffff
    xor  rax, rax
    test rax, rax
    jnz  .fail
    mov  rax, 60
    xor  rdi, rdi
    syscall
.fail:
    mov  rax, 60
    mov  rdi, 1
    syscall
",
    );
}

#[test]
fn xor_double_is_identity() {
    assert_program(
        "
section .text
global _start
_start:
    mov  rax, 0xabcdef0123456789
    mov  rbx, 0x1111111111111111
    xor  rax, rbx
    xor  rax, rbx       ; rax should be back to its first value
    mov  rcx, 0xabcdef0123456789
    cmp  rax, rcx
    jne  .fail
    mov  rax, 60
    xor  rdi, rdi
    syscall
.fail:
    mov  rax, 60
    mov  rdi, 1
    syscall
",
    );
}

#[test]
fn neg_double_is_identity() {
    assert_program(
        "
section .text
global _start
_start:
    mov  rax, 12345678
    neg  rax
    neg  rax
    cmp  rax, 12345678
    jne  .fail
    mov  rax, 60
    xor  rdi, rdi
    syscall
.fail:
    mov  rax, 60
    mov  rdi, 1
    syscall
",
    );
}

#[test]
fn add_sub_roundtrip() {
    assert_program(
        "
section .text
global _start
_start:
    mov  rax, 99999
    add  rax, 12345
    sub  rax, 12345
    cmp  rax, 99999
    jne  .fail
    mov  rax, 60
    xor  rdi, rdi
    syscall
.fail:
    mov  rax, 60
    mov  rdi, 1
    syscall
",
    );
}

#[test]
fn zf_set_on_zero_result() {
    assert_program(
        "
section .text
global _start
_start:
    xor  rax, rax
    jnz  .fail          ; ZF must be set
    mov  rax, 60
    xor  rdi, rdi
    syscall
.fail:
    mov  rax, 60
    mov  rdi, 1
    syscall
",
    );
}

#[test]
fn cf_set_on_unsigned_underflow() {
    assert_program(
        "
section .text
global _start
_start:
    mov  rax, 0
    sub  rax, 1         ; 0 - 1 wraps; CF must be set
    jnc  .fail
    mov  rax, 60
    xor  rdi, rdi
    syscall
.fail:
    mov  rax, 60
    mov  rdi, 1
    syscall
",
    );
}

#[test]
fn sf_set_on_negative_result() {
    assert_program(
        "
section .text
global _start
_start:
    mov  rax, 0
    sub  rax, 1         ; result is -1 (0xfff...); SF must be set
    jns  .fail
    mov  rax, 60
    xor  rdi, rdi
    syscall
.fail:
    mov  rax, 60
    mov  rdi, 1
    syscall
",
    );
}

#[test]
fn all_conditional_jumps() {
    assert_program(
        "
section .text
global _start
_start:
    ; je / jne
    mov  rax, 5
    cmp  rax, 5
    jne  .fail
    cmp  rax, 6
    je   .fail

    ; jl / jge  (signed)
    mov  rax, 3
    cmp  rax, 5
    jge  .fail
    cmp  rax, 3
    jl   .fail

    ; jg / jle  (signed)
    mov  rax, 7
    cmp  rax, 5
    jle  .fail
    cmp  rax, 7
    jg   .fail

    ; js / jns
    mov  rax, -1
    test rax, rax
    jns  .fail
    mov  rax, 1
    test rax, rax
    js   .fail

    mov  rax, 60
    xor  rdi, rdi
    syscall
.fail:
    mov  rax, 60
    mov  rdi, 1
    syscall
",
    );
}

#[test]
fn loop_instruction() {
    assert_program(
        "
section .text
global _start
_start:
    mov  rcx, 5
    mov  rax, 0
.top:
    inc  rax
    loop .top
    cmp  rax, 5
    jne  .fail
    mov  rax, 60
    xor  rdi, rdi
    syscall
.fail:
    mov  rax, 60
    mov  rdi, 1
    syscall
",
    );
}

#[test]
fn call_and_ret() {
    assert_program(
        "
section .text
global _start

double:
    imul rax, rax, 2
    ret

_start:
    mov  rax, 21
    call double         ; rax = 42
    cmp  rax, 42
    jne  .fail
    mov  rax, 60
    xor  rdi, rdi
    syscall
.fail:
    mov  rax, 60
    mov  rdi, 1
    syscall
",
    );
}

#[test]
fn push_pop_roundtrip() {
    assert_program(
        "
section .text
global _start
_start:
    mov  rax, 0xdeadbeef
    push rax
    mov  rax, 0             ; clobber
    pop  rax
    cmp  rax, 0xdeadbeef
    jne  .fail
    mov  rax, 60
    xor  rdi, rdi
    syscall
.fail:
    mov  rax, 60
    mov  rdi, 1
    syscall
",
    );
}

#[test]
fn dword_write_zero_extends() {
    assert_program(
        "
section .text
global _start
_start:
    mov  rax, 0xffffffffffffffff
    mov  eax, 1             ; upper 32 bits must become 0
    mov  rcx, 0x0000000000000001
    cmp  rax, rcx
    jne  .fail
    mov  rax, 60
    xor  rdi, rdi
    syscall
.fail:
    mov  rax, 60
    mov  rdi, 1
    syscall
",
    );
}

#[test]
fn byte_write_does_not_clear_upper_bits() {
    assert_program(
        "
section .text
global _start
_start:
    mov  rax, 0x1122334455667788
    mov  al,  0xff
    mov  rcx, 0x11223344556677ff
    cmp  rax, rcx
    jne  .fail
    mov  rax, 60
    xor  rdi, rdi
    syscall
.fail:
    mov  rax, 60
    mov  rdi, 1
    syscall
",
    );
}

#[test]
fn movzx_zero_extends() {
    assert_program(
        "
section .text
global _start
_start:
    mov  rax, 0xffffffffffffffff
    mov  al,  0x42
    movzx rbx, al           ; rbx = 0x42, upper bits zero
    cmp  rbx, 0x42
    jne  .fail
    mov  rax, 60
    xor  rdi, rdi
    syscall
.fail:
    mov  rax, 60
    mov  rdi, 1
    syscall
",
    );
}

#[test]
fn movsx_sign_extends() {
    assert_program(
        "
section .text
global _start
_start:
    mov  al, 0x80           ; -128 as signed byte
    movsx rax, al           ; rax = 0xffffffffffffff80
    mov  rcx, -128
    cmp  rax, rcx
    jne  .fail
    mov  rax, 60
    xor  rdi, rdi
    syscall
.fail:
    mov  rax, 60
    mov  rdi, 1
    syscall
",
    );
}

#[test]
fn imul_two_op() {
    assert_program(
        "
section .text
global _start
_start:
    mov  rax, 6
    imul rax, rax, 7    ; rax = 42
    cmp  rax, 42
    jne  .fail
    mov  rax, 60
    xor  rdi, rdi
    syscall
.fail:
    mov  rax, 60
    mov  rdi, 1
    syscall
",
    );
}

#[test]
fn div_quotient_and_remainder() {
    assert_program(
        "
section .text
global _start
_start:
    mov  rax, 100
    xor  rdx, rdx
    mov  rcx, 7
    div  rcx            ; rax = 14, rdx = 2
    cmp  rax, 14
    jne  .fail
    cmp  rdx, 2
    jne  .fail
    mov  rax, 60
    xor  rdi, rdi
    syscall
.fail:
    mov  rax, 60
    mov  rdi, 1
    syscall
",
    );
}

#[test]
fn shl_shr_roundtrip() {
    assert_program(
        "
section .text
global _start
_start:
    mov  rax, 0b1011
    shl  rax, 4         ; rax = 0b10110000
    shr  rax, 4         ; rax = 0b1011
    cmp  rax, 0b1011
    jne  .fail
    mov  rax, 60
    xor  rdi, rdi
    syscall
.fail:
    mov  rax, 60
    mov  rdi, 1
    syscall
",
    );
}

#[test]
fn sar_preserves_sign() {
    assert_program(
        "
section .text
global _start
_start:
    mov  rax, -256      ; negative value
    sar  rax, 4         ; arithmetic: rax = -16
    cmp  rax, -16
    jne  .fail
    mov  rax, 60
    xor  rdi, rdi
    syscall
.fail:
    mov  rax, 60
    mov  rdi, 1
    syscall
",
    );
}

#[test]
fn mem_write_read_roundtrip() {
    assert_program(
        "
section .data
    buf db 0, 0, 0, 0, 0, 0, 0, 0
section .text
global _start
_start:
    lea  rdi, [buf]
    mov  qword ptr [rdi], 0xdeadbeefcafebabe
    mov  rax, qword ptr [rdi]
    mov  rcx, 0xdeadbeefcafebabe
    cmp  rax, rcx
    jne  .fail
    mov  rax, 60
    xor  rdi, rdi
    syscall
.fail:
    mov  rax, 60
    mov  rdi, 1
    syscall
",
    );
}

#[test]
fn mem_indexed_addressing() {
    assert_program(
        "
section .data
    arr db 10, 20, 30, 40
section .text
global _start
_start:
    lea  rsi, [arr]
    mov  rcx, 2
    movzx rax, byte ptr [rsi + rcx]   ; arr[2] = 30
    cmp  rax, 30
    jne  .fail
    mov  rax, 60
    xor  rdi, rdi
    syscall
.fail:
    mov  rax, 60
    mov  rdi, 1
    syscall
",
    );
}

#[test]
fn read_from_stdin_echoes() {
    let mut sim = Simulator::new(
        "
section .data
    buf times 8 db 0
section .text
global _start
_start:
    mov rax, 0
    mov rdi, 0
    lea rsi, [buf]
    mov rdx, 8
    syscall
    mov rdx, rax
    mov rax, 1
    mov rdi, 1
    lea rsi, [buf]
    syscall
    mov rax, 60
    xor rdi, rdi
    syscall
",
    );
    sim.feed_stdin(b"hey");
    assert_eq!(sim.run(), 1);
    assert_eq!(sim.take_stdout(), "hey");
}

#[test]
fn step_limit_stops_endless_loop() {
    let tokens = Lexer::new("_start:\n    jmp _start\n").tokenize().unwrap();
    let lines = Parser::new(tokens).parse().unwrap();
    let prog = Assembler::new(lines).assemble().unwrap();
    let mut cpu = Cpu::new(prog, false, 10).unwrap();
    match cpu.run() {
        Err(e) => assert_eq!(e.to_string(), "runtime error at rip=0x1000: exceeded max steps (10)"),
        Ok(()) => panic!("an endless loop cannot halt"),
    }
    assert_eq!(cpu.steps, 10);
}

#[test]
fn debug_mode_traces_to_stderr() {
    let tokens = Lexer::new("_start:\n    mov rax, 60\n    syscall\n").tokenize().unwrap();
    let lines = Parser::new(tokens).parse().unwrap();
    let prog = Assembler::new(lines).assemble().unwrap();
    let mut cpu = Cpu::new(prog, true, 100).unwrap();
    cpu.run().unwrap();
    let err = String::from_utf8(cpu.take_stderr()).unwrap();
    assert!(err.starts_with("rax=0x0000000000000000 rbx="));
    assert!(err.contains("  \u{2192} Mov [Register(RegRef { reg: Rax, width: Qword }), Immediate(60)]\n"));
    assert!(err.contains("rip=0x0000000000001002  CF=0 ZF=0 SF=0 OF=0 PF=0\n  \u{2192} Syscall []\n"));
}

#[test]
fn divide_by_zero_is_runtime_error() {
    let r = build("_start:\n    xor rcx, rcx\n    div rcx\n").unwrap().run();
    match r {
        Err(SimError::Runtime { rip, .. }) => assert_eq!(rip, 0x1002),
        _ => panic!("expected a runtime error"),
    }
}

#[test]
fn idiv_overflow_is_runtime_error() {
    let r = build("_start:\n    mov rax, 0x8000000000000000\n    mov rdx, -1\n    mov rcx, -1\n    idiv rcx\n")
        .unwrap()
        .run();
    assert!(matches!(r, Err(SimError::Runtime { .. })));
}

#[test]
fn write_to_text_segment_is_runtime_error() {
    let r = build("_start:\n    mov rdi, 0x1000\n    mov byte [rdi], 1\n").unwrap().run();
    assert!(matches!(r, Err(SimError::Runtime { rip: 0x1002, .. })));
}

/// Runs a source that must stop with a runtime error; gives the error's text.
fn runtime_error(src: &str) -> String {
    match build(src).unwrap().run() {
        Err(e @ SimError::Runtime { .. }) => e.to_string(),
        Err(e) => panic!("expected a runtime error, got {}", e.to_string()),
        Ok(()) => panic!("expected a runtime error"),
    }
}

#[test]
fn runtime_error_messages() {
    assert_eq!(runtime_error("_start:\n    mov 5, rax\n"), "runtime error at rip=0x1001: invalid destination operand");
    assert_eq!(runtime_error("_start:\n    push\n"), "runtime error at rip=0x1001: Push requires 1 operand(s), got 0");
    assert_eq!(runtime_error("_start:\n    add rax\n"), "runtime error at rip=0x1001: Add requires 2 operand(s), got 1");
    assert_eq!(runtime_error("_start:\n    lea rax, rbx\n"), "runtime error at rip=0x1001: lea requires memory operand");
    assert_eq!(runtime_error("_start:\n    imul rax, rbx, 1, 2\n"), "runtime error at rip=0x1001: imul: invalid operand count");
    assert_eq!(
        runtime_error("_start:\n    mov rdx, 1\n    mov rcx, 1\n    div rcx\n"),
        "runtime error at rip=0x1003: div overflow"
    );
    assert_eq!(runtime_error("_start:\n    mov rax, 99\n    syscall\n"), "runtime error at rip=0x1002: unknown syscall: rax=99");
    assert_eq!(
        runtime_error("_start:\n    jmp [rax]\n"),
        "runtime error at rip=0x1001: invalid jump target: Memory(MemAddr { size: None, base: Some(RegRef { reg: Rax, width: Qword }), index: None, scale: 1, disp: 0, label: None })"
    );
    assert_eq!(
        runtime_error("_start:\n    mov rax, qword [0xfffffff]\n"),
        "runtime error at rip=0x1001: segfault: address 0xfffffff out of bounds"
    );
    assert_eq!(runtime_error("_start:\n    jmp 5\n"), "runtime error at rip=0x5: rip 0x5 below text base");
    assert_eq!(
        runtime_error("_start:\n    mov rax, 1\n"),
        "runtime error at rip=0x1001: rip 0x1001 (idx 1) out of instruction range"
    );
}

#[test]
fn print_regs_appends_dump() {
    let mut cpu = build("_start:\n    mov rax, 60\n    syscall\n").unwrap();
    cpu.regs.write_named(Register::Rbx, 0xABC);
    cpu.print_regs();
    let text = String::from_utf8(cpu.take_stderr()).unwrap();
    assert_eq!(
        text,
        "rax=0x0000000000000000 rbx=0x0000000000000abc rcx=0x0000000000000000 rdx=0x0000000000000000\n\
         rsi=0x0000000000000000 rdi=0x0000000000000000 rsp=0x0000000000ff0000 rbp=0x0000000000000000\n\
         rip=0x0000000000001000  CF=0 ZF=0 SF=0 OF=0 PF=0\n"
    );
}

#[test]
fn current_source_line_follows_rip() {
    let mut cpu = build("section .text\n_start:\n    mov rax, 60\n\n    syscall\n").unwrap();
    assert_eq!(cpu.current_source_line(), 3);
    cpu.step().unwrap();
    assert_eq!(cpu.current_source_line(), 5);
    cpu.step().unwrap();
    assert!(cpu.halted);
    assert_eq!(cpu.current_source_line(), 0);
}
