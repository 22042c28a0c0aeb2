//! Programs made by a generator that always yields valid assembly: every one must go
//! through the whole pipeline without a panic, and those that halt exit with code 0.
use arbitrary::Unstructured;
use asm_sim::assembler::Assembler;
use asm_sim::cpu::Cpu;
use asm_sim::lexer::Lexer;
use asm_sim::parser::Parser;

const GP64: &[&str] = &[
    "rax", "rbx", "rcx", "rdx", "rsi", "rdi", "r8", "r9", "r10", "r11", "r12", "r13", "r14", "r15",
];
const GP8: &[&str] = &["al", "bl", "cl", "dl", "sil", "dil"];
const SHIFT_REG: &str = "cl";

fn pick<'a, T>(u: &mut Unstructured, slice: &'a [T]) -> arbitrary::Result<&'a T> {
    let idx = u.int_in_range(0..=slice.len() - 1)?;
    Ok(&slice[idx])
}

fn pick_label<'a>(u: &mut Unstructured, labels: &'a [String]) -> arbitrary::Result<&'a str> {
    Ok(pick(u, labels)?.as_str())
}

fn gen_instr(u: &mut Unstructured, labels: &[String], out: &mut String) -> arbitrary::Result<()> {
    let kind: u8 = u.int_in_range(0..=16)?;
    match kind {
        0 => {
            let dst = *pick(u, GP64)?;
            let src = *pick(u, GP64)?;
            out.push_str(&format!("    mov {dst}, {src}\n"));
        },
        1 => {
            let dst = *pick(u, GP64)?;
            let imm: i32 = u.arbitrary()?;
            out.push_str(&format!("    mov {dst}, {imm}\n"));
        },
        2 => {
            let dst = *pick(u, GP8)?;
            let imm: i8 = u.arbitrary()?;
            out.push_str(&format!("    mov {dst}, {imm}\n"));
        },
        3 => {
            let op = *pick(u, &["add", "sub", "and", "or", "xor"])?;
            let dst = *pick(u, GP64)?;
            let src = *pick(u, GP64)?;
            out.push_str(&format!("    {op} {dst}, {src}\n"));
        },
        4 => {
            let op = *pick(u, &["add", "sub", "and", "or", "xor"])?;
            let dst = *pick(u, GP64)?;
            let imm: i32 = u.arbitrary()?;
            out.push_str(&format!("    {op} {dst}, {imm}\n"));
        },
        5 => {
            let op = *pick(u, &["inc", "dec", "neg", "not"])?;
            let dst = *pick(u, GP64)?;
            out.push_str(&format!("    {op} {dst}\n"));
        },
        6 => {
            let dst = *pick(u, GP64)?;
            let src = *pick(u, GP64)?;
            out.push_str(&format!("    imul {dst}, {src}\n"));
        },
        7 => {
            let dst = *pick(u, GP64)?;
            let src = *pick(u, GP64)?;
            let imm: i8 = u.arbitrary()?;
            out.push_str(&format!("    imul {dst}, {src}, {imm}\n"));
        },
        8 => {
            let op = *pick(u, &["shl", "shr", "sar", "rol", "ror"])?;
            let dst = *pick(u, GP64)?;
            let count = u.int_in_range(1u8..=63)?;
            out.push_str(&format!("    {op} {dst}, {count}\n"));
        },
        9 => {
            let op = *pick(u, &["shl", "shr", "sar"])?;
            let dst = *pick(u, GP64)?;
            out.push_str(&format!("    {op} {dst}, {SHIFT_REG}\n"));
        },
        10 => {
            let reg = *pick(u, GP64)?;
            out.push_str(&format!("    push {reg}\n    pop  {reg}\n"));
        },
        11 => {
            let jop = *pick(u, &["je", "jne", "jl", "jle", "jg", "jge", "js", "jns", "jc", "jnc"])?;
            let a = *pick(u, GP64)?;
            let b = *pick(u, GP64)?;
            let tgt = pick_label(u, labels)?;
            out.push_str(&format!("    cmp {a}, {b}\n    {jop} {tgt}\n"));
        },
        12 => {
            let jop = *pick(u, &["jz", "jnz"])?;
            let a = *pick(u, GP64)?;
            let tgt = pick_label(u, labels)?;
            out.push_str(&format!("    test {a}, {a}\n    {jop} {tgt}\n"));
        },
        13 => {
            let tgt = pick_label(u, labels)?;
            out.push_str(&format!("    jmp {tgt}\n"));
        },
        14 => {
            let tgt = pick_label(u, labels)?;
            out.push_str(&format!("    call {tgt}\n"));
        },
        15 => {
            out.push_str("    nop\n");
        },
        _ => {
            let a = *pick(u, GP64)?;
            let b = *pick(u, GP64)?;
            out.push_str(&format!("    xchg {a}, {b}\n"));
        },
    }
    Ok(())
}

fn generate(u: &mut Unstructured) -> arbitrary::Result<String> {
    let n_extra: usize = u.int_in_range(0usize..=4)?;
    let extra: Vec<String> = (0..n_extra).map(|i| format!(".L{i}")).collect();
    let all_labels: Vec<String> = std::iter::once("_start".to_string()).chain(extra.iter().cloned()).collect();
    let mut src = String::new();
    let n_data: usize = u.int_in_range(0usize..=3)?;
    if n_data > 0 {
        src.push_str("section .data\n");
        for i in 0..n_data {
            let val: u8 = u.arbitrary()?;
            src.push_str(&format!("    dat{i} db {val}\n"));
        }
    }
    src.push_str("section .text\nglobal _start\n");
    for (block_idx, label) in all_labels.iter().enumerate() {
        src.push_str(&format!("{label}:\n"));
        if block_idx == all_labels.len() - 1 {
            src.push_str("    mov rax, 60\n    xor rdi, rdi\n    syscall\n");
            break;
        }
        let n_instrs: usize = u.int_in_range(0usize..=8)?;
        for _ in 0..n_instrs {
            gen_instr(u, &all_labels, &mut src)?;
        }
    }
    Ok(src)
}

/// Runs a source through the whole pipeline; `Some` with the exit code when it halts.
fn run_pipeline(src: &str) -> Option<i32> {
    let tokens = Lexer::new(src).tokenize().ok()?;
    let lines = Parser::new(tokens).parse().ok()?;
    let prog = Assembler::new(lines).assemble().ok()?;
    let mut cpu = Cpu::new(prog, false, 50_000).ok()?;
    cpu.run().ok()?;
    assert!(cpu.halted);
    Some(cpu.exit_code)
}

/// Bytes from a small linear congruential generator, to feed the program generator.
fn seeded_bytes(seed: u64, len: usize) -> Vec<u8> {
    let mut x = seed.wrapping_mul(6364136223846793005).wrapping_add(1442695040888963407);
    (0..len)
        .map(|_| {
            x = x.wrapping_mul(6364136223846793005).wrapping_add(1442695040888963407);
            (x >> 33) as u8
        })
        .collect()
}

#[test]
fn generated_programs_run_cleanly() {
    let mut assembled = 0;
    for seed in 0..150u64 {
        let data = seeded_bytes(seed, 512);
        let mut u = Unstructured::new(&data);
        let src = match generate(&mut u) {
            Ok(s) => s,
            Err(_) => continue,
        };
        if let Some(code) = run_pipeline(&src) {
            assert_eq!(code, 0, "program exited with {code}:\n{src}");
            assembled += 1;
        }
    }
    assert!(assembled > 0);
}

#[test]
fn generated_program_without_jumps_halts() {
    let src = "section .data\n    dat0 db 7\nsection .text\nglobal _start\n_start:\n    mov rbx, 5\n    \
               imul rbx, rbx, 3\n    push rbx\n    pop rcx\n    rol rcx, 3\n.L0:\n    mov rax, 60\n    xor rdi, rdi\n    syscall\n";
    assert_eq!(run_pipeline(src), Some(0));
}

#[test]
fn arbitrary_bytes_never_panic_the_pipeline() {
    for seed in 0..200u64 {
        let data = seeded_bytes(seed, 64);
        let src = String::from_utf8_lossy(&data);
        let _ = run_pipeline(&src);
    }
}
