use asm_sim::ast::Op;
use asm_sim::cpu::alu;
use asm_sim::names::parse_op;
use asm_sim::simulator::{Simulator, WasmRegisters};

/// Runs a source until it halts or stops with an error; gives the final registers and the
/// error output.
fn finish(src: &str) -> (WasmRegisters, String) {
    let mut sim = Simulator::new(src);
    assert_eq!(sim.error(), None);
    sim.run();
    (sim.regs(), sim.take_stderr())
}

const EXIT: &str = "    mov rax, 60\n    syscall\n";

#[test]
fn adc_overflow_comes_from_the_whole_sum() {
    let r = alu::add_with_carry(0x80, 0xFF, true, 8);
    assert_eq!(r.val, 0x80);
    assert!(r.flags.cf && !r.flags.of && r.flags.sf && !r.flags.zf && !r.flags.pf);
    let r = alu::add_with_carry(0x7F, 0, true, 8);
    assert_eq!(r.val, 0x80);
    assert!(!r.flags.cf && r.flags.of);
}

#[test]
fn sbb_overflow_comes_from_the_whole_difference() {
    let r = alu::sub_with_borrow(0x7F, 0xFF, true, 8);
    assert_eq!(r.val, 0x7F);
    assert!(r.flags.cf && !r.flags.of && !r.flags.sf && !r.flags.zf && !r.flags.pf);
    let r = alu::sub_with_borrow(0x80, 0, true, 8);
    assert_eq!(r.val, 0x7F);
    assert!(!r.flags.cf && r.flags.of);
}

#[test]
fn shift_by_zero_keeps_the_flags() {
    // cmp 0, 1 sets CF, SF and PF; shifts and rotations by a masked count of 0 keep them.
    for shift in ["shl rbx, 0", "shr rbx, 64", "sar rbx, 0", "rol rbx, 0", "ror rbx, cl"] {
        let src = format!("_start:\n    mov rcx, 128\n    mov rbx, 1\n    xor rax, rax\n    cmp rax, 1\n    {shift}\n{EXIT}");
        let (r, err) = finish(&src);
        assert_eq!(err, "");
        assert_eq!(r.rbx, 1, "{shift}");
        assert!(r.cf && !r.zf && r.sf && !r.of && r.pf, "{shift}");
    }
    // A count that is not 0 sets them from the result.
    let (r, _) = finish(&format!("_start:\n    mov rbx, 1\n    xor rax, rax\n    cmp rax, 1\n    shl rbx, 1\n{EXIT}"));
    assert_eq!(r.rbx, 2);
    assert!(!r.cf && !r.zf && !r.sf && !r.pf);
}

#[test]
fn movsx_from_memory_extends_the_sign_of_its_size() {
    let src = format!("section .data\n    v db 0x80\n    w dw 0x8001\nsection .text\n_start:\n    movsx rsi, byte [v]\n    movsx rbx, word [w]\n    movzx rcx, byte [v]\n    mov rdi, 0\n{EXIT}");
    let (r, err) = finish(&src);
    assert_eq!(err, "");
    assert_eq!(r.rsi, 0xFFFF_FFFF_FFFF_FF80);
    assert_eq!(r.rbx, 0xFFFF_FFFF_FFFF_8001);
    assert_eq!(r.rcx, 0x80);
}

#[test]
fn syscall_two_is_unknown() {
    let (_, err) = finish("_start:\n    mov rax, 2\n    mov rdi, 1\n    syscall\n");
    assert_eq!(err, "[runtime error] runtime error at rip=0x1003: unknown syscall: rax=2\n");
}

#[test]
fn one_operand_imul_flags_whether_the_product_fits() {
    let (r, _) = finish(&format!("_start:\n    mov rax, 0x4000000000000000\n    mov rbx, 2\n    imul rbx\n    mov rsi, rax\n    mov rdi, 0\n{EXIT}"));
    assert_eq!(r.rsi, 0x8000_0000_0000_0000);
    assert_eq!(r.rdx, 0);
    assert!(r.cf && r.of);
    let (r, _) = finish(&format!("_start:\n    mov rax, -3\n    mov rbx, 5\n    imul rbx\n    mov rsi, rax\n    mov rdi, 0\n{EXIT}"));
    assert_eq!(r.rsi, (-15i64) as u64);
    assert_eq!(r.rdx, u64::MAX);
    assert!(!r.cf && !r.of);
}

#[test]
fn multiply_and_divide_at_the_operand_width() {
    // 8 bits: AX = AL * BL.
    let (r, _) = finish(&format!("_start:\n    mov rax, 0x1C8\n    mov bl, 2\n    mul bl\n    mov rsi, rax\n    mov rdi, 0\n{EXIT}"));
    assert_eq!(r.rsi, 0x190);
    assert!(r.cf && r.of);
    // 32 bits: EDX:EAX = EAX * ECX, the upper halves of RAX and RDX cleared.
    let (r, _) = finish(&format!("_start:\n    mov rax, 0x1_8000_0000\n    mov rdx, -1\n    mov ecx, 4\n    mul ecx\n    mov rsi, rax\n    mov rdi, 0\n{EXIT}"));
    assert_eq!(r.rsi, 0);
    assert_eq!(r.rdx, 2);
    // 32 bits: EDX:EAX / ECX; bit 32 of RAX is no part of the dividend.
    let (r, _) = finish(&format!("_start:\n    mov rax, 0x1_0000_0000\n    xor rdx, rdx\n    mov ecx, 2\n    div ecx\n    mov rsi, rax\n    mov rdi, 0\n{EXIT}"));
    assert_eq!(r.rsi, 0);
    // 8 bits signed: AX / BL, quotient to AL, remainder to AH.
    let (r, _) = finish(&format!("_start:\n    mov rax, -7\n    mov bl, 2\n    idiv bl\n    mov rsi, rax\n    mov rdi, 0\n{EXIT}"));
    assert_eq!(r.rsi & 0xFFFF, 0xFFFD);
    // 16 bits: DX:AX / CX.
    let (r, _) = finish(&format!("_start:\n    mov rax, 0x0005\n    mov rdx, 1\n    mov cx, 0x10\n    div cx\n    mov rsi, rax\n    mov rdi, 0\n{EXIT}"));
    assert_eq!(r.rsi, 0x1000);
    assert_eq!(r.rdx, 5);
    // An 8-bit quotient that does not fit is an error.
    let (_, err) = finish("_start:\n    mov rax, 0x200\n    mov bl, 2\n    div bl\n");
    assert_eq!(err, "[runtime error] runtime error at rip=0x1003: div overflow\n");
}

#[test]
fn two_operand_imul_is_signed_at_its_width() {
    let (r, _) = finish(&format!("_start:\n    mov eax, -1\n    mov ebx, 5\n    imul eax, ebx\n    mov rsi, rax\n    mov rdi, 0\n{EXIT}"));
    assert_eq!(r.rsi, 0xFFFF_FFFB);
    assert!(!r.cf && !r.of);
    let (r, _) = finish(&format!("_start:\n    mov eax, 0x40000000\n    imul eax, eax, 2\n    mov rsi, rax\n    mov rdi, 0\n{EXIT}"));
    assert_eq!(r.rsi, 0x8000_0000);
    assert!(r.cf && r.of);
}

#[test]
fn mnemonics_ignore_case() {
    assert_eq!(parse_op("MoV"), Some(Op::Mov));
    assert_eq!(parse_op("JNZ"), parse_op("jnz"));
    assert_eq!(parse_op("jnz"), Some(Op::Jne));
    assert_eq!(parse_op("SAL"), Some(Op::Shl));
    assert_eq!(parse_op("nop"), None);
    assert_eq!(parse_op("equ"), None);
}

#[test]
fn neg_and_rotations_set_carry_as_stated() {
    let r = alu::neg(0x80, 8);
    assert_eq!(r.val, 0x80);
    assert!(r.flags.cf && r.flags.of);
    let r = alu::neg(0, 16);
    assert!(!r.flags.cf && !r.flags.of && r.flags.zf);
    let r = alu::ror(0x01, 1, 8);
    assert_eq!(r.val, 0x80);
    assert!(r.flags.cf);
    assert_eq!(alu::rol(r.val, 1, 8).val, 0x01);
}
