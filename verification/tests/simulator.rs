use asm_sim::simulator::{Simulator, MAX_STEPS};

const COUNTDOWN: &str = "
section .text
global _start
_start:
    mov rcx, 3
top:
    dec rcx
    jnz top
    mov rax, 60
    mov rdi, 7
    syscall
";

#[test]
fn new_simulator_has_no_error() {
    let sim = Simulator::new(COUNTDOWN);
    assert_eq!(sim.error(), None);
    assert_eq!((sim.error_kind(), sim.error_line(), sim.error_col()), (0, 0, 0));
    assert!(!sim.is_halted());
    assert!(!sim.is_at_breakpoint());
    assert_eq!(sim.current_source_line(), 5);
    assert_eq!(sim.regs().rsp, 0x00FF_0000);
    assert_eq!(sim.regs().rip, 0x1000);
}

#[test]
fn parse_error_gives_kind_and_line() {
    let sim = Simulator::new("_start:\n    mov rax,\n");
    assert_eq!(sim.error_kind(), 2);
    assert_eq!(sim.error_line(), 2);
    assert_eq!(sim.error_col(), 0);
    assert!(sim.error().is_some());
    assert!(sim.is_halted());
}

#[test]
fn load_error_when_data_does_not_fit() {
    let sim = Simulator::new("section .data\n    big times 16000000 db 0\n");
    assert_eq!(sim.error_kind(), 4);
    assert_eq!(
        sim.error(),
        Some("runtime error at rip=0x0: segfault: address 0x100000 out of bounds".to_string())
    );
}

#[test]
fn without_a_program_nothing_runs() {
    let mut sim = Simulator::new("@");
    assert_eq!(sim.error_kind(), 1);
    assert_eq!(sim.step(), 1);
    assert_eq!(sim.run(), 1);
    assert_eq!(sim.steps(), 0);
    assert_eq!(sim.exit_code(), 0);
    assert_eq!(sim.current_source_line(), 0);
    assert_eq!(sim.dump_regs(), "");
    assert_eq!(sim.take_stdout(), "");
    assert_eq!(sim.take_stderr(), "");
    assert_eq!(sim.read_mem(0x100000, 4), Vec::<u8>::new());
    let r = sim.regs();
    assert_eq!((r.rax, r.rsp, r.rip, r.cf, r.pf), (0, 0, 0, false, false));
}

#[test]
fn run_stops_before_breakpoint_line() {
    let mut sim = Simulator::new(COUNTDOWN);
    sim.set_breakpoint(7);
    assert_eq!(sim.run(), 2);
    assert!(sim.is_at_breakpoint());
    assert_eq!(sim.current_source_line(), 7);
    assert_eq!(sim.regs().rcx, 3);
    assert_eq!(sim.run(), 2);
    assert_eq!(sim.regs().rcx, 2);
    sim.clear_breakpoint(7);
    assert_eq!(sim.run(), 1);
    assert!(!sim.is_at_breakpoint());
    assert!(sim.is_halted());
    assert_eq!(sim.exit_code(), 7);
}

#[test]
fn step_reports_breakpoints_and_clear_removes_them() {
    let mut sim = Simulator::new(COUNTDOWN);
    sim.set_breakpoint(9);
    sim.set_breakpoint(10);
    sim.clear_breakpoints();
    assert_eq!(sim.run(), 1);
    let mut sim = Simulator::new(COUNTDOWN);
    sim.set_breakpoint(9);
    let mut codes = Vec::new();
    loop {
        let code = sim.step();
        codes.push(code);
        if code != 0 {
            break;
        }
    }
    assert_eq!(codes, vec![0, 0, 0, 0, 0, 0, 2]);
    assert_eq!(sim.current_source_line(), 9);
    assert_eq!(sim.step(), 0);
    assert!(!sim.is_at_breakpoint());
}

#[test]
fn runtime_error_goes_to_stderr_and_halts() {
    let mut sim = Simulator::new("_start:\n    xor rcx, rcx\n    div rcx\n");
    assert_eq!(sim.run(), 1);
    assert!(sim.is_halted());
    assert_eq!(sim.take_stderr(), "[runtime error] runtime error at rip=0x1002: division by zero\n");
    assert_eq!(sim.step(), 1);
    assert_eq!(sim.take_stderr(), "");
}

#[test]
fn step_limit_halts_the_simulator() {
    let mut sim = Simulator::new("_start:\n    jmp _start\n");
    assert_eq!(sim.run(), 1);
    assert_eq!(sim.steps(), MAX_STEPS);
    assert_eq!(sim.take_stderr(), "[runtime error] runtime error at rip=0x1000: exceeded max steps (1000000)\n");
}

#[test]
fn dump_regs_shows_registers_steps_and_halt() {
    let mut sim = Simulator::new("_start:\n    mov r10, 0xff\n    mov rax, 60\n    syscall\n");
    assert_eq!(sim.step(), 0);
    assert_eq!(
        sim.dump_regs(),
        "rax=0x0000000000000000 rbx=0x0000000000000000 rcx=0x0000000000000000 rdx=0x0000000000000000\n\
         rsi=0x0000000000000000 rdi=0x0000000000000000 rsp=0x0000000000ff0000 rbp=0x0000000000000000\n\
         r8=0x0000000000000000 r9=0x0000000000000000 r10=0x00000000000000ff r11=0x0000000000000000\n\
         rip=0x0000000000001001  CF=0 ZF=0 SF=0 OF=0 PF=0\n\
         steps=1 halted=false"
    );
    assert_eq!(sim.run(), 1);
    assert!(sim.dump_regs().ends_with("steps=3 halted=true"));
}

#[test]
fn read_mem_reads_data_and_stops_at_memory_end() {
    let sim = Simulator::new("section .data\n    msg db \"hey\", 0\nsection .text\n_start:\n    mov rax, 60\n    syscall\n");
    assert_eq!(sim.read_mem(0x10_0000, 4), b"hey\0".to_vec());
    assert_eq!(sim.read_mem(0x10_0000, 0), Vec::<u8>::new());
    assert_eq!(sim.read_mem(0xFF_FFFE, 8), vec![0, 0]);
    assert_eq!(sim.read_mem(0x100_0000, 8), Vec::<u8>::new());
    assert_eq!(sim.read_mem(0xFFFF_FFFF, 8), Vec::<u8>::new());
}

#[test]
fn output_is_text_with_invalid_bytes_replaced() {
    let mut sim = Simulator::new(
        "section .data\n    msg db 0xff, \"ok\"\nsection .text\n_start:\n    mov rax, 1\n    mov rdi, 1\n    lea rsi, [msg]\n    mov rdx, 3\n    syscall\n    mov rax, 60\n    syscall\n",
    );
    assert_eq!(sim.run(), 1);
    assert_eq!(sim.take_stdout(), "\u{FFFD}ok");
}

#[test]
fn feed_stdin_appends_input() {
    let src = "section .data\n    buf times 4 db 0\nsection .text\n_start:\n    mov rax, 0\n    mov rdi, 0\n    lea rsi, [buf]\n    mov rdx, 4\n    syscall\n    mov rdi, rax\n    mov rax, 60\n    syscall\n";
    let mut sim = Simulator::new(src);
    sim.feed_stdin(b"ab");
    sim.feed_stdin(b"cd");
    assert_eq!(sim.run(), 1);
    assert_eq!(sim.exit_code(), 4);
    assert_eq!(sim.read_mem(0x10_0000, 4), b"abcd".to_vec());
}
