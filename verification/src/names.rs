//! Case-insensitive names: registers, operations, sizes and keywords.
use vstd::prelude::*;
use vstd::string::StrSliceExecFns;
use crate::ast::{Op, RegRef, RegWidth, Register, Size};

verus! {

/// An ASCII capital letter in lower case; any other character unchanged.
pub open spec fn lower_char(c: char) -> char {
    if 'A' <= c <= 'Z' {
        ((c as u32) + 32) as char
    } else {
        c
    }
}

/// A text with its ASCII capitals in lower case.
pub open spec fn lower(s: Seq<char>) -> Seq<char> {
    s.map_values(|c: char| lower_char(c))
}

/// Whether `s` spells `w` when read without regard to ASCII case.
pub open spec fn spells(s: Seq<char>, w: &str) -> bool {
    lower(s) == w@
}

fn lower_char_exec(c: char) -> (r: char)
    ensures r == lower_char(c),
{
    if 'A' <= c && c <= 'Z' {
        let b: u8 = c as u8;
        assert(b as u32 == c as u32);
        ((b + 32) as char)
    } else {
        c
    }
}

/// Whether `s` spells `w` regardless of ASCII case.
pub fn is_word(s: &str, w: &str) -> (r: bool)
    ensures r == spells(s@, w),
{
    let n = s.unicode_len();
    if n != w.unicode_len() {
        assert(lower(s@).len() != w@.len());
        return false;
    }
    let mut i: usize = 0;
    while i < n
        invariant
            n == s@.len(),
            n == w@.len(),
            i <= n,
            forall|j: int| 0 <= j < i ==> lower_char(#[trigger] s@[j]) == w@[j],
        decreases n - i,
    {
        let c = s.get_char(i);
        let d = w.get_char(i);
        if lower_char_exec(c) != d {
            assert(lower(s@)[i as int] != w@[i as int]);
            return false;
        }
        i = i + 1;
    }
    assert(lower(s@) =~= w@);
    true
}



/// Whether `a` and `b` are the same text.
pub fn same_text(a: &str, b: &str) -> (r: bool)
    ensures r == (a@ == b@),
{
    let n = a.unicode_len();
    if n != b.unicode_len() {
        return false;
    }
    let mut i: usize = 0;
    while i < n
        invariant
            n == a@.len(),
            n == b@.len(),
            i <= n,
            forall|j: int| 0 <= j < i ==> a@[j] == b@[j],
        decreases n - i,
    {
        if a.get_char(i) != b.get_char(i) {
            return false;
        }
        i = i + 1;
    }
    assert(a@ =~= b@);
    true
}

/// The register that `s` names, with the width that the name selects.
pub open spec fn register_named(s: Seq<char>) -> Option<RegRef> {
    if spells(s, "rax") {
        Some(RegRef { reg: Register::Rax, width: RegWidth::Qword })
    } else if spells(s, "rbx") {
        Some(RegRef { reg: Register::Rbx, width: RegWidth::Qword })
    } else if spells(s, "rcx") {
        Some(RegRef { reg: Register::Rcx, width: RegWidth::Qword })
    } else if spells(s, "rdx") {
        Some(RegRef { reg: Register::Rdx, width: RegWidth::Qword })
    } else if spells(s, "rsi") {
        Some(RegRef { reg: Register::Rsi, width: RegWidth::Qword })
    } else if spells(s, "rdi") {
        Some(RegRef { reg: Register::Rdi, width: RegWidth::Qword })
    } else if spells(s, "rsp") {
        Some(RegRef { reg: Register::Rsp, width: RegWidth::Qword })
    } else if spells(s, "rbp") {
        Some(RegRef { reg: Register::Rbp, width: RegWidth::Qword })
    } else if spells(s, "r8") {
        Some(RegRef { reg: Register::R8, width: RegWidth::Qword })
    } else if spells(s, "r9") {
        Some(RegRef { reg: Register::R9, width: RegWidth::Qword })
    } else if spells(s, "r10") {
        Some(RegRef { reg: Register::R10, width: RegWidth::Qword })
    } else if spells(s, "r11") {
        Some(RegRef { reg: Register::R11, width: RegWidth::Qword })
    } else if spells(s, "r12") {
        Some(RegRef { reg: Register::R12, width: RegWidth::Qword })
    } else if spells(s, "r13") {
        Some(RegRef { reg: Register::R13, width: RegWidth::Qword })
    } else if spells(s, "r14") {
        Some(RegRef { reg: Register::R14, width: RegWidth::Qword })
    } else if spells(s, "r15") {
        Some(RegRef { reg: Register::R15, width: RegWidth::Qword })
    } else if spells(s, "eax") {
        Some(RegRef { reg: Register::Rax, width: RegWidth::Dword })
    } else if spells(s, "ebx") {
        Some(RegRef { reg: Register::Rbx, width: RegWidth::Dword })
    } else if spells(s, "ecx") {
        Some(RegRef { reg: Register::Rcx, width: RegWidth::Dword })
    } else if spells(s, "edx") {
        Some(RegRef { reg: Register::Rdx, width: RegWidth::Dword })
    } else if spells(s, "esi") {
        Some(RegRef { reg: Register::Rsi, width: RegWidth::Dword })
    } else if spells(s, "edi") {
        Some(RegRef { reg: Register::Rdi, width: RegWidth::Dword })
    } else if spells(s, "esp") {
        Some(RegRef { reg: Register::Rsp, width: RegWidth::Dword })
    } else if spells(s, "ebp") {
        Some(RegRef { reg: Register::Rbp, width: RegWidth::Dword })
    } else if spells(s, "r8d") {
        Some(RegRef { reg: Register::R8, width: RegWidth::Dword })
    } else if spells(s, "r9d") {
        Some(RegRef { reg: Register::R9, width: RegWidth::Dword })
    } else if spells(s, "r10d") {
        Some(RegRef { reg: Register::R10, width: RegWidth::Dword })
    } else if spells(s, "r11d") {
        Some(RegRef { reg: Register::R11, width: RegWidth::Dword })
    } else if spells(s, "r12d") {
        Some(RegRef { reg: Register::R12, width: RegWidth::Dword })
    } else if spells(s, "r13d") {
        Some(RegRef { reg: Register::R13, width: RegWidth::Dword })
    } else if spells(s, "r14d") {
        Some(RegRef { reg: Register::R14, width: RegWidth::Dword })
    } else if spells(s, "r15d") {
        Some(RegRef { reg: Register::R15, width: RegWidth::Dword })
    } else if spells(s, "ax") {
        Some(RegRef { reg: Register::Rax, width: RegWidth::Word })
    } else if spells(s, "bx") {
        Some(RegRef { reg: Register::Rbx, width: RegWidth::Word })
    } else if spells(s, "cx") {
        Some(RegRef { reg: Register::Rcx, width: RegWidth::Word })
    } else if spells(s, "dx") {
        Some(RegRef { reg: Register::Rdx, width: RegWidth::Word })
    } else if spells(s, "si") {
        Some(RegRef { reg: Register::Rsi, width: RegWidth::Word })
    } else if spells(s, "di") {
        Some(RegRef { reg: Register::Rdi, width: RegWidth::Word })
    } else if spells(s, "sp") {
        Some(RegRef { reg: Register::Rsp, width: RegWidth::Word })
    } else if spells(s, "bp") {
        Some(RegRef { reg: Register::Rbp, width: RegWidth::Word })
    } else if spells(s, "r8w") {
        Some(RegRef { reg: Register::R8, width: RegWidth::Word })
    } else if spells(s, "r9w") {
        Some(RegRef { reg: Register::R9, width: RegWidth::Word })
    } else if spells(s, "r10w") {
        Some(RegRef { reg: Register::R10, width: RegWidth::Word })
    } else if spells(s, "r11w") {
        Some(RegRef { reg: Register::R11, width: RegWidth::Word })
    } else if spells(s, "r12w") {
        Some(RegRef { reg: Register::R12, width: RegWidth::Word })
    } else if spells(s, "r13w") {
        Some(RegRef { reg: Register::R13, width: RegWidth::Word })
    } else if spells(s, "r14w") {
        Some(RegRef { reg: Register::R14, width: RegWidth::Word })
    } else if spells(s, "r15w") {
        Some(RegRef { reg: Register::R15, width: RegWidth::Word })
    } else if spells(s, "al") {
        Some(RegRef { reg: Register::Rax, width: RegWidth::Byte })
    } else if spells(s, "bl") {
        Some(RegRef { reg: Register::Rbx, width: RegWidth::Byte })
    } else if spells(s, "cl") {
        Some(RegRef { reg: Register::Rcx, width: RegWidth::Byte })
    } else if spells(s, "dl") {
        Some(RegRef { reg: Register::Rdx, width: RegWidth::Byte })
    } else if spells(s, "sil") {
        Some(RegRef { reg: Register::Rsi, width: RegWidth::Byte })
    } else if spells(s, "dil") {
        Some(RegRef { reg: Register::Rdi, width: RegWidth::Byte })
    } else if spells(s, "spl") {
        Some(RegRef { reg: Register::Rsp, width: RegWidth::Byte })
    } else if spells(s, "bpl") {
        Some(RegRef { reg: Register::Rbp, width: RegWidth::Byte })
    } else if spells(s, "ah") {
        Some(RegRef { reg: Register::Rax, width: RegWidth::ByteHi })
    } else if spells(s, "bh") {
        Some(RegRef { reg: Register::Rbx, width: RegWidth::ByteHi })
    } else if spells(s, "ch") {
        Some(RegRef { reg: Register::Rcx, width: RegWidth::ByteHi })
    } else if spells(s, "dh") {
        Some(RegRef { reg: Register::Rdx, width: RegWidth::ByteHi })
    } else if spells(s, "r8b") {
        Some(RegRef { reg: Register::R8, width: RegWidth::Byte })
    } else if spells(s, "r9b") {
        Some(RegRef { reg: Register::R9, width: RegWidth::Byte })
    } else if spells(s, "r10b") {
        Some(RegRef { reg: Register::R10, width: RegWidth::Byte })
    } else if spells(s, "r11b") {
        Some(RegRef { reg: Register::R11, width: RegWidth::Byte })
    } else if spells(s, "r12b") {
        Some(RegRef { reg: Register::R12, width: RegWidth::Byte })
    } else if spells(s, "r13b") {
        Some(RegRef { reg: Register::R13, width: RegWidth::Byte })
    } else if spells(s, "r14b") {
        Some(RegRef { reg: Register::R14, width: RegWidth::Byte })
    } else if spells(s, "r15b") {
        Some(RegRef { reg: Register::R15, width: RegWidth::Byte })
    } else {
        None
    }
}

/// The register that `s` names.
pub fn parse_register(s: &str) -> (r: Option<RegRef>)
    ensures r == register_named(s@),
{
    if is_word(s, "rax") {
        return Some(RegRef { reg: Register::Rax, width: RegWidth::Qword });
    }
    if is_word(s, "rbx") {
        return Some(RegRef { reg: Register::Rbx, width: RegWidth::Qword });
    }
    if is_word(s, "rcx") {
        return Some(RegRef { reg: Register::Rcx, width: RegWidth::Qword });
    }
    if is_word(s, "rdx") {
        return Some(RegRef { reg: Register::Rdx, width: RegWidth::Qword });
    }
    if is_word(s, "rsi") {
        return Some(RegRef { reg: Register::Rsi, width: RegWidth::Qword });
    }
    if is_word(s, "rdi") {
        return Some(RegRef { reg: Register::Rdi, width: RegWidth::Qword });
    }
    if is_word(s, "rsp") {
        return Some(RegRef { reg: Register::Rsp, width: RegWidth::Qword });
    }
    if is_word(s, "rbp") {
        return Some(RegRef { reg: Register::Rbp, width: RegWidth::Qword });
    }
    if is_word(s, "r8") {
        return Some(RegRef { reg: Register::R8, width: RegWidth::Qword });
    }
    if is_word(s, "r9") {
        return Some(RegRef { reg: Register::R9, width: RegWidth::Qword });
    }
    if is_word(s, "r10") {
        return Some(RegRef { reg: Register::R10, width: RegWidth::Qword });
    }
    if is_word(s, "r11") {
        return Some(RegRef { reg: Register::R11, width: RegWidth::Qword });
    }
    if is_word(s, "r12") {
        return Some(RegRef { reg: Register::R12, width: RegWidth::Qword });
    }
    if is_word(s, "r13") {
        return Some(RegRef { reg: Register::R13, width: RegWidth::Qword });
    }
    if is_word(s, "r14") {
        return Some(RegRef { reg: Register::R14, width: RegWidth::Qword });
    }
    if is_word(s, "r15") {
        return Some(RegRef { reg: Register::R15, width: RegWidth::Qword });
    }
    if is_word(s, "eax") {
        return Some(RegRef { reg: Register::Rax, width: RegWidth::Dword });
    }
    if is_word(s, "ebx") {
        return Some(RegRef { reg: Register::Rbx, width: RegWidth::Dword });
    }
    if is_word(s, "ecx") {
        return Some(RegRef { reg: Register::Rcx, width: RegWidth::Dword });
    }
    if is_word(s, "edx") {
        return Some(RegRef { reg: Register::Rdx, width: RegWidth::Dword });
    }
    if is_word(s, "esi") {
        return Some(RegRef { reg: Register::Rsi, width: RegWidth::Dword });
    }
    if is_word(s, "edi") {
        return Some(RegRef { reg: Register::Rdi, width: RegWidth::Dword });
    }
    if is_word(s, "esp") {
        return Some(RegRef { reg: Register::Rsp, width: RegWidth::Dword });
    }
    if is_word(s, "ebp") {
        return Some(RegRef { reg: Register::Rbp, width: RegWidth::Dword });
    }
    if is_word(s, "r8d") {
        return Some(RegRef { reg: Register::R8, width: RegWidth::Dword });
    }
    if is_word(s, "r9d") {
        return Some(RegRef { reg: Register::R9, width: RegWidth::Dword });
    }
    if is_word(s, "r10d") {
        return Some(RegRef { reg: Register::R10, width: RegWidth::Dword });
    }
    if is_word(s, "r11d") {
        return Some(RegRef { reg: Register::R11, width: RegWidth::Dword });
    }
    if is_word(s, "r12d") {
        return Some(RegRef { reg: Register::R12, width: RegWidth::Dword });
    }
    if is_word(s, "r13d") {
        return Some(RegRef { reg: Register::R13, width: RegWidth::Dword });
    }
    if is_word(s, "r14d") {
        return Some(RegRef { reg: Register::R14, width: RegWidth::Dword });
    }
    if is_word(s, "r15d") {
        return Some(RegRef { reg: Register::R15, width: RegWidth::Dword });
    }
    if is_word(s, "ax") {
        return Some(RegRef { reg: Register::Rax, width: RegWidth::Word });
    }
    if is_word(s, "bx") {
        return Some(RegRef { reg: Register::Rbx, width: RegWidth::Word });
    }
    if is_word(s, "cx") {
        return Some(RegRef { reg: Register::Rcx, width: RegWidth::Word });
    }
    if is_word(s, "dx") {
        return Some(RegRef { reg: Register::Rdx, width: RegWidth::Word });
    }
    if is_word(s, "si") {
        return Some(RegRef { reg: Register::Rsi, width: RegWidth::Word });
    }
    if is_word(s, "di") {
        return Some(RegRef { reg: Register::Rdi, width: RegWidth::Word });
    }
    if is_word(s, "sp") {
        return Some(RegRef { reg: Register::Rsp, width: RegWidth::Word });
    }
    if is_word(s, "bp") {
        return Some(RegRef { reg: Register::Rbp, width: RegWidth::Word });
    }
    if is_word(s, "r8w") {
        return Some(RegRef { reg: Register::R8, width: RegWidth::Word });
    }
    if is_word(s, "r9w") {
        return Some(RegRef { reg: Register::R9, width: RegWidth::Word });
    }
    if is_word(s, "r10w") {
        return Some(RegRef { reg: Register::R10, width: RegWidth::Word });
    }
    if is_word(s, "r11w") {
        return Some(RegRef { reg: Register::R11, width: RegWidth::Word });
    }
    if is_word(s, "r12w") {
        return Some(RegRef { reg: Register::R12, width: RegWidth::Word });
    }
    if is_word(s, "r13w") {
        return Some(RegRef { reg: Register::R13, width: RegWidth::Word });
    }
    if is_word(s, "r14w") {
        return Some(RegRef { reg: Register::R14, width: RegWidth::Word });
    }
    if is_word(s, "r15w") {
        return Some(RegRef { reg: Register::R15, width: RegWidth::Word });
    }
    if is_word(s, "al") {
        return Some(RegRef { reg: Register::Rax, width: RegWidth::Byte });
    }
    if is_word(s, "bl") {
        return Some(RegRef { reg: Register::Rbx, width: RegWidth::Byte });
    }
    if is_word(s, "cl") {
        return Some(RegRef { reg: Register::Rcx, width: RegWidth::Byte });
    }
    if is_word(s, "dl") {
        return Some(RegRef { reg: Register::Rdx, width: RegWidth::Byte });
    }
    if is_word(s, "sil") {
        return Some(RegRef { reg: Register::Rsi, width: RegWidth::Byte });
    }
    if is_word(s, "dil") {
        return Some(RegRef { reg: Register::Rdi, width: RegWidth::Byte });
    }
    if is_word(s, "spl") {
        return Some(RegRef { reg: Register::Rsp, width: RegWidth::Byte });
    }
    if is_word(s, "bpl") {
        return Some(RegRef { reg: Register::Rbp, width: RegWidth::Byte });
    }
    if is_word(s, "ah") {
        return Some(RegRef { reg: Register::Rax, width: RegWidth::ByteHi });
    }
    if is_word(s, "bh") {
        return Some(RegRef { reg: Register::Rbx, width: RegWidth::ByteHi });
    }
    if is_word(s, "ch") {
        return Some(RegRef { reg: Register::Rcx, width: RegWidth::ByteHi });
    }
    if is_word(s, "dh") {
        return Some(RegRef { reg: Register::Rdx, width: RegWidth::ByteHi });
    }
    if is_word(s, "r8b") {
        return Some(RegRef { reg: Register::R8, width: RegWidth::Byte });
    }
    if is_word(s, "r9b") {
        return Some(RegRef { reg: Register::R9, width: RegWidth::Byte });
    }
    if is_word(s, "r10b") {
        return Some(RegRef { reg: Register::R10, width: RegWidth::Byte });
    }
    if is_word(s, "r11b") {
        return Some(RegRef { reg: Register::R11, width: RegWidth::Byte });
    }
    if is_word(s, "r12b") {
        return Some(RegRef { reg: Register::R12, width: RegWidth::Byte });
    }
    if is_word(s, "r13b") {
        return Some(RegRef { reg: Register::R13, width: RegWidth::Byte });
    }
    if is_word(s, "r14b") {
        return Some(RegRef { reg: Register::R14, width: RegWidth::Byte });
    }
    if is_word(s, "r15b") {
        return Some(RegRef { reg: Register::R15, width: RegWidth::Byte });
    }
    None
}

/// The operation that the mnemonic `s` names.
pub open spec fn op_named(s: Seq<char>) -> Option<Op> {
    if spells(s, "mov") {
        Some(Op::Mov)
    } else if spells(s, "push") {
        Some(Op::Push)
    } else if spells(s, "pop") {
        Some(Op::Pop)
    } else if spells(s, "lea") {
        Some(Op::Lea)
    } else if spells(s, "xchg") {
        Some(Op::Xchg)
    } else if spells(s, "movzx") {
        Some(Op::Movzx)
    } else if spells(s, "movsx") {
        Some(Op::Movsx)
    } else if spells(s, "add") {
        Some(Op::Add)
    } else if spells(s, "sub") {
        Some(Op::Sub)
    } else if spells(s, "mul") {
        Some(Op::Mul)
    } else if spells(s, "imul") {
        Some(Op::Imul)
    } else if spells(s, "div") {
        Some(Op::Div)
    } else if spells(s, "idiv") {
        Some(Op::Idiv)
    } else if spells(s, "inc") {
        Some(Op::Inc)
    } else if spells(s, "dec") {
        Some(Op::Dec)
    } else if spells(s, "neg") {
        Some(Op::Neg)
    } else if spells(s, "adc") {
        Some(Op::Adc)
    } else if spells(s, "sbb") {
        Some(Op::Sbb)
    } else if spells(s, "and") {
        Some(Op::And)
    } else if spells(s, "or") {
        Some(Op::Or)
    } else if spells(s, "xor") {
        Some(Op::Xor)
    } else if spells(s, "not") {
        Some(Op::Not)
    } else if spells(s, "shl") {
        Some(Op::Shl)
    } else if spells(s, "sal") {
        Some(Op::Shl)
    } else if spells(s, "shr") {
        Some(Op::Shr)
    } else if spells(s, "sar") {
        Some(Op::Sar)
    } else if spells(s, "rol") {
        Some(Op::Rol)
    } else if spells(s, "ror") {
        Some(Op::Ror)
    } else if spells(s, "cmp") {
        Some(Op::Cmp)
    } else if spells(s, "test") {
        Some(Op::Test)
    } else if spells(s, "jmp") {
        Some(Op::Jmp)
    } else if spells(s, "call") {
        Some(Op::Call)
    } else if spells(s, "ret") {
        Some(Op::Ret)
    } else if spells(s, "loop") {
        Some(Op::Loop)
    } else if spells(s, "je") {
        Some(Op::Je)
    } else if spells(s, "jz") {
        Some(Op::Je)
    } else if spells(s, "jne") {
        Some(Op::Jne)
    } else if spells(s, "jnz") {
        Some(Op::Jne)
    } else if spells(s, "jl") {
        Some(Op::Jl)
    } else if spells(s, "jnge") {
        Some(Op::Jl)
    } else if spells(s, "jle") {
        Some(Op::Jle)
    } else if spells(s, "jng") {
        Some(Op::Jle)
    } else if spells(s, "jg") {
        Some(Op::Jg)
    } else if spells(s, "jnle") {
        Some(Op::Jg)
    } else if spells(s, "jge") {
        Some(Op::Jge)
    } else if spells(s, "jnl") {
        Some(Op::Jge)
    } else if spells(s, "js") {
        Some(Op::Js)
    } else if spells(s, "jns") {
        Some(Op::Jns)
    } else if spells(s, "jc") {
        Some(Op::Jc)
    } else if spells(s, "jb") {
        Some(Op::Jc)
    } else if spells(s, "jnc") {
        Some(Op::Jnc)
    } else if spells(s, "jae") {
        Some(Op::Jnc)
    } else if spells(s, "jo") {
        Some(Op::Jo)
    } else if spells(s, "jno") {
        Some(Op::Jno)
    } else if spells(s, "syscall") {
        Some(Op::Syscall)
    } else {
        None
    }
}

/// The operation that the mnemonic `s` names.
pub fn parse_op(s: &str) -> (r: Option<Op>)
    ensures r == op_named(s@),
{
    if is_word(s, "mov") {
        return Some(Op::Mov);
    }
    if is_word(s, "push") {
        return Some(Op::Push);
    }
    if is_word(s, "pop") {
        return Some(Op::Pop);
    }
    if is_word(s, "lea") {
        return Some(Op::Lea);
    }
    if is_word(s, "xchg") {
        return Some(Op::Xchg);
    }
    if is_word(s, "movzx") {
        return Some(Op::Movzx);
    }
    if is_word(s, "movsx") {
        return Some(Op::Movsx);
    }
    if is_word(s, "add") {
        return Some(Op::Add);
    }
    if is_word(s, "sub") {
        return Some(Op::Sub);
    }
    if is_word(s, "mul") {
        return Some(Op::Mul);
    }
    if is_word(s, "imul") {
        return Some(Op::Imul);
    }
    if is_word(s, "div") {
        return Some(Op::Div);
    }
    if is_word(s, "idiv") {
        return Some(Op::Idiv);
    }
    if is_word(s, "inc") {
        return Some(Op::Inc);
    }
    if is_word(s, "dec") {
        return Some(Op::Dec);
    }
    if is_word(s, "neg") {
        return Some(Op::Neg);
    }
    if is_word(s, "adc") {
        return Some(Op::Adc);
    }
    if is_word(s, "sbb") {
        return Some(Op::Sbb);
    }
    if is_word(s, "and") {
        return Some(Op::And);
    }
    if is_word(s, "or") {
        return Some(Op::Or);
    }
    if is_word(s, "xor") {
        return Some(Op::Xor);
    }
    if is_word(s, "not") {
        return Some(Op::Not);
    }
    if is_word(s, "shl") {
        return Some(Op::Shl);
    }
    if is_word(s, "sal") {
        return Some(Op::Shl);
    }
    if is_word(s, "shr") {
        return Some(Op::Shr);
    }
    if is_word(s, "sar") {
        return Some(Op::Sar);
    }
    if is_word(s, "rol") {
        return Some(Op::Rol);
    }
    if is_word(s, "ror") {
        return Some(Op::Ror);
    }
    if is_word(s, "cmp") {
        return Some(Op::Cmp);
    }
    if is_word(s, "test") {
        return Some(Op::Test);
    }
    if is_word(s, "jmp") {
        return Some(Op::Jmp);
    }
    if is_word(s, "call") {
        return Some(Op::Call);
    }
    if is_word(s, "ret") {
        return Some(Op::Ret);
    }
    if is_word(s, "loop") {
        return Some(Op::Loop);
    }
    if is_word(s, "je") {
        return Some(Op::Je);
    }
    if is_word(s, "jz") {
        return Some(Op::Je);
    }
    if is_word(s, "jne") {
        return Some(Op::Jne);
    }
    if is_word(s, "jnz") {
        return Some(Op::Jne);
    }
    if is_word(s, "jl") {
        return Some(Op::Jl);
    }
    if is_word(s, "jnge") {
        return Some(Op::Jl);
    }
    if is_word(s, "jle") {
        return Some(Op::Jle);
    }
    if is_word(s, "jng") {
        return Some(Op::Jle);
    }
    if is_word(s, "jg") {
        return Some(Op::Jg);
    }
    if is_word(s, "jnle") {
        return Some(Op::Jg);
    }
    if is_word(s, "jge") {
        return Some(Op::Jge);
    }
    if is_word(s, "jnl") {
        return Some(Op::Jge);
    }
    if is_word(s, "js") {
        return Some(Op::Js);
    }
    if is_word(s, "jns") {
        return Some(Op::Jns);
    }
    if is_word(s, "jc") {
        return Some(Op::Jc);
    }
    if is_word(s, "jb") {
        return Some(Op::Jc);
    }
    if is_word(s, "jnc") {
        return Some(Op::Jnc);
    }
    if is_word(s, "jae") {
        return Some(Op::Jnc);
    }
    if is_word(s, "jo") {
        return Some(Op::Jo);
    }
    if is_word(s, "jno") {
        return Some(Op::Jno);
    }
    if is_word(s, "syscall") {
        return Some(Op::Syscall);
    }
    None
}

/// The operand size that `s` names.
pub open spec fn size_named(s: Seq<char>) -> Option<Size> {
    if spells(s, "byte") {
        Some(Size::Byte)
    } else if spells(s, "word") {
        Some(Size::Word)
    } else if spells(s, "dword") {
        Some(Size::Dword)
    } else if spells(s, "qword") {
        Some(Size::Qword)
    } else {
        None
    }
}

/// The operand size that `s` names.
pub fn parse_size(s: &str) -> (r: Option<Size>)
    ensures r == size_named(s@),
{
    if is_word(s, "byte") {
        return Some(Size::Byte);
    }
    if is_word(s, "word") {
        return Some(Size::Word);
    }
    if is_word(s, "dword") {
        return Some(Size::Dword);
    }
    if is_word(s, "qword") {
        return Some(Size::Qword);
    }
    None
}

/// Lowering ASCII case twice is lowering it once.
proof fn lemma_lower_idempotent(s: Seq<char>)
    ensures lower(lower(s)) == lower(s),
{
    assert(lower(lower(s)) =~= lower(s));
}

/// Operation and register names ignore ASCII case, and no mnemonic names the constant
/// definition.
pub proof fn law_names_ignore_case(s: Seq<char>)
    ensures
        op_named(s) == op_named(lower(s)),
        register_named(s) == register_named(lower(s)),
        op_named(s) != Some(Op::Equ),
{
    lemma_lower_idempotent(s);
}

/// The name of a register at a width, as the assembler spells it (in lower case); empty for
/// the high byte of a register that has none.
pub open spec fn register_spelling(r: RegRef) -> Seq<char> {
    match r.reg {
        Register::Rax => match r.width {
            RegWidth::Byte => "al"@,
            RegWidth::ByteHi => "ah"@,
            RegWidth::Word => "ax"@,
            RegWidth::Dword => "eax"@,
            RegWidth::Qword => "rax"@,
        },
        Register::Rbx => match r.width {
            RegWidth::Byte => "bl"@,
            RegWidth::ByteHi => "bh"@,
            RegWidth::Word => "bx"@,
            RegWidth::Dword => "ebx"@,
            RegWidth::Qword => "rbx"@,
        },
        Register::Rcx => match r.width {
            RegWidth::Byte => "cl"@,
            RegWidth::ByteHi => "ch"@,
            RegWidth::Word => "cx"@,
            RegWidth::Dword => "ecx"@,
            RegWidth::Qword => "rcx"@,
        },
        Register::Rdx => match r.width {
            RegWidth::Byte => "dl"@,
            RegWidth::ByteHi => "dh"@,
            RegWidth::Word => "dx"@,
            RegWidth::Dword => "edx"@,
            RegWidth::Qword => "rdx"@,
        },
        Register::Rsi => match r.width {
            RegWidth::Byte => "sil"@,
            RegWidth::ByteHi => Seq::empty(),
            RegWidth::Word => "si"@,
            RegWidth::Dword => "esi"@,
            RegWidth::Qword => "rsi"@,
        },
        Register::Rdi => match r.width {
            RegWidth::Byte => "dil"@,
            RegWidth::ByteHi => Seq::empty(),
            RegWidth::Word => "di"@,
            RegWidth::Dword => "edi"@,
            RegWidth::Qword => "rdi"@,
        },
        Register::Rsp => match r.width {
            RegWidth::Byte => "spl"@,
            RegWidth::ByteHi => Seq::empty(),
            RegWidth::Word => "sp"@,
            RegWidth::Dword => "esp"@,
            RegWidth::Qword => "rsp"@,
        },
        Register::Rbp => match r.width {
            RegWidth::Byte => "bpl"@,
            RegWidth::ByteHi => Seq::empty(),
            RegWidth::Word => "bp"@,
            RegWidth::Dword => "ebp"@,
            RegWidth::Qword => "rbp"@,
        },
        Register::R8 => match r.width {
            RegWidth::Byte => "r8b"@,
            RegWidth::ByteHi => Seq::empty(),
            RegWidth::Word => "r8w"@,
            RegWidth::Dword => "r8d"@,
            RegWidth::Qword => "r8"@,
        },
        Register::R9 => match r.width {
            RegWidth::Byte => "r9b"@,
            RegWidth::ByteHi => Seq::empty(),
            RegWidth::Word => "r9w"@,
            RegWidth::Dword => "r9d"@,
            RegWidth::Qword => "r9"@,
        },
        Register::R10 => match r.width {
            RegWidth::Byte => "r10b"@,
            RegWidth::ByteHi => Seq::empty(),
            RegWidth::Word => "r10w"@,
            RegWidth::Dword => "r10d"@,
            RegWidth::Qword => "r10"@,
        },
        Register::R11 => match r.width {
            RegWidth::Byte => "r11b"@,
            RegWidth::ByteHi => Seq::empty(),
            RegWidth::Word => "r11w"@,
            RegWidth::Dword => "r11d"@,
            RegWidth::Qword => "r11"@,
        },
        Register::R12 => match r.width {
            RegWidth::Byte => "r12b"@,
            RegWidth::ByteHi => Seq::empty(),
            RegWidth::Word => "r12w"@,
            RegWidth::Dword => "r12d"@,
            RegWidth::Qword => "r12"@,
        },
        Register::R13 => match r.width {
            RegWidth::Byte => "r13b"@,
            RegWidth::ByteHi => Seq::empty(),
            RegWidth::Word => "r13w"@,
            RegWidth::Dword => "r13d"@,
            RegWidth::Qword => "r13"@,
        },
        Register::R14 => match r.width {
            RegWidth::Byte => "r14b"@,
            RegWidth::ByteHi => Seq::empty(),
            RegWidth::Word => "r14w"@,
            RegWidth::Dword => "r14d"@,
            RegWidth::Qword => "r14"@,
        },
        Register::R15 => match r.width {
            RegWidth::Byte => "r15b"@,
            RegWidth::ByteHi => Seq::empty(),
            RegWidth::Word => "r15w"@,
            RegWidth::Dword => "r15d"@,
            RegWidth::Qword => "r15"@,
        },
    }
}

/// A register name names the register it spells and no other: any text that names a
/// register reference spells that reference's name, so two different names never name the
/// same register at the same width.
pub proof fn law_register_names_distinct(s: Seq<char>)
    ensures
        register_named(s) matches Some(r) ==> lower(s) == register_spelling(r),
{
}

/// Whether `t` is a mnemonic of `op`: its own name, or one of the aliases of a conditional
/// jump (`jz` for `je`, `jb` for `jc`, ...) or `sal` for `shl`.
pub open spec fn op_spelled(op: Op, t: Seq<char>) -> bool {
    match op {
        Op::Mov => t == "mov"@,
        Op::Push => t == "push"@,
        Op::Pop => t == "pop"@,
        Op::Lea => t == "lea"@,
        Op::Xchg => t == "xchg"@,
        Op::Movzx => t == "movzx"@,
        Op::Movsx => t == "movsx"@,
        Op::Add => t == "add"@,
        Op::Sub => t == "sub"@,
        Op::Mul => t == "mul"@,
        Op::Imul => t == "imul"@,
        Op::Div => t == "div"@,
        Op::Idiv => t == "idiv"@,
        Op::Inc => t == "inc"@,
        Op::Dec => t == "dec"@,
        Op::Neg => t == "neg"@,
        Op::Adc => t == "adc"@,
        Op::Sbb => t == "sbb"@,
        Op::And => t == "and"@,
        Op::Or => t == "or"@,
        Op::Xor => t == "xor"@,
        Op::Not => t == "not"@,
        Op::Shl => t == "shl"@ || t == "sal"@,
        Op::Shr => t == "shr"@,
        Op::Sar => t == "sar"@,
        Op::Rol => t == "rol"@,
        Op::Ror => t == "ror"@,
        Op::Cmp => t == "cmp"@,
        Op::Test => t == "test"@,
        Op::Jmp => t == "jmp"@,
        Op::Call => t == "call"@,
        Op::Ret => t == "ret"@,
        Op::Loop => t == "loop"@,
        Op::Je => t == "je"@ || t == "jz"@,
        Op::Jne => t == "jne"@ || t == "jnz"@,
        Op::Jl => t == "jl"@ || t == "jnge"@,
        Op::Jle => t == "jle"@ || t == "jng"@,
        Op::Jg => t == "jg"@ || t == "jnle"@,
        Op::Jge => t == "jge"@ || t == "jnl"@,
        Op::Js => t == "js"@,
        Op::Jns => t == "jns"@,
        Op::Jc => t == "jc"@ || t == "jb"@,
        Op::Jnc => t == "jnc"@ || t == "jae"@,
        Op::Jo => t == "jo"@,
        Op::Jno => t == "jno"@,
        Op::Syscall => t == "syscall"@,
        Op::Equ => false,
    }
}

/// A mnemonic names the operation it spells and no other: any text that names an operation
/// is one of that operation's mnemonics.
pub proof fn law_mnemonics_distinct(s: Seq<char>)
    ensures
        op_named(s) matches Some(op) ==> op_spelled(op, lower(s)),
{
}

} // verus!
