//! Rendering of the syntax in messages and traces: operations, registers, operands and
//! tokens, each written as its variant name followed by its fields.
use vstd::prelude::*;
use crate::ast::{MemAddr, MemAddrV, Op, Operand, OperandV, RegRef, RegWidth, Register, Size};
use crate::lexer::{Token, TokenV};
use crate::text::{debug_str, decimal, decimal_digits, str_debug};

verus! {

/// The name of an operation.
pub open spec fn op_name(x: Op) -> Seq<char> {
    match x {
        Op::Mov => "Mov"@,
        Op::Push => "Push"@,
        Op::Pop => "Pop"@,
        Op::Lea => "Lea"@,
        Op::Xchg => "Xchg"@,
        Op::Movzx => "Movzx"@,
        Op::Movsx => "Movsx"@,
        Op::Add => "Add"@,
        Op::Sub => "Sub"@,
        Op::Mul => "Mul"@,
        Op::Imul => "Imul"@,
        Op::Div => "Div"@,
        Op::Idiv => "Idiv"@,
        Op::Inc => "Inc"@,
        Op::Dec => "Dec"@,
        Op::Neg => "Neg"@,
        Op::Adc => "Adc"@,
        Op::Sbb => "Sbb"@,
        Op::And => "And"@,
        Op::Or => "Or"@,
        Op::Xor => "Xor"@,
        Op::Not => "Not"@,
        Op::Shl => "Shl"@,
        Op::Shr => "Shr"@,
        Op::Sar => "Sar"@,
        Op::Rol => "Rol"@,
        Op::Ror => "Ror"@,
        Op::Cmp => "Cmp"@,
        Op::Test => "Test"@,
        Op::Jmp => "Jmp"@,
        Op::Call => "Call"@,
        Op::Ret => "Ret"@,
        Op::Loop => "Loop"@,
        Op::Je => "Je"@,
        Op::Jne => "Jne"@,
        Op::Jl => "Jl"@,
        Op::Jle => "Jle"@,
        Op::Jg => "Jg"@,
        Op::Jge => "Jge"@,
        Op::Js => "Js"@,
        Op::Jns => "Jns"@,
        Op::Jc => "Jc"@,
        Op::Jnc => "Jnc"@,
        Op::Jo => "Jo"@,
        Op::Jno => "Jno"@,
        Op::Syscall => "Syscall"@,
        Op::Equ => "Equ"@,
    }
}
/// The name of a register.
pub open spec fn register_name(x: Register) -> Seq<char> {
    match x {
        Register::Rax => "Rax"@,
        Register::Rbx => "Rbx"@,
        Register::Rcx => "Rcx"@,
        Register::Rdx => "Rdx"@,
        Register::Rsi => "Rsi"@,
        Register::Rdi => "Rdi"@,
        Register::Rsp => "Rsp"@,
        Register::Rbp => "Rbp"@,
        Register::R8 => "R8"@,
        Register::R9 => "R9"@,
        Register::R10 => "R10"@,
        Register::R11 => "R11"@,
        Register::R12 => "R12"@,
        Register::R13 => "R13"@,
        Register::R14 => "R14"@,
        Register::R15 => "R15"@,
    }
}
/// The name of a register width.
pub open spec fn width_name(x: RegWidth) -> Seq<char> {
    match x {
        RegWidth::Byte => "Byte"@,
        RegWidth::ByteHi => "ByteHi"@,
        RegWidth::Word => "Word"@,
        RegWidth::Dword => "Dword"@,
        RegWidth::Qword => "Qword"@,
    }
}
/// The name of a memory operand size.
pub open spec fn size_name(x: Size) -> Seq<char> {
    match x {
        Size::Byte => "Byte"@,
        Size::Word => "Word"@,
        Size::Dword => "Dword"@,
        Size::Qword => "Qword"@,
    }
}
/// An integer in decimal, with a minus sign when it is negative.
pub open spec fn signed_digits(n: i64) -> Seq<char> {
    if n < 0 { "-"@ + decimal_digits((-n) as nat) } else { decimal_digits(n as nat) }
}

/// `x` inside `Some(..)`.
pub open spec fn some_text(x: Seq<char>) -> Seq<char> {
    "Some("@ + x + ")"@
}

/// A register reference with its register and width.
pub open spec fn regref_text(r: RegRef) -> Seq<char> {
    "RegRef { reg: "@ + register_name(r.reg) + ", width: "@ + width_name(r.width) + " }"@
}

/// An optional register reference.
pub open spec fn opt_regref_text(r: Option<RegRef>) -> Seq<char> {
    match r {
        Some(x) => some_text(regref_text(x)),
        None => "None"@,
    }
}

/// A memory operand with all its fields.
pub open spec fn memaddr_text(m: MemAddrV) -> Seq<char> {
    "MemAddr { size: "@ + (match m.size {
        Some(s) => some_text(size_name(s)),
        None => "None"@,
    }) + ", base: "@ + opt_regref_text(m.base) + ", index: "@ + opt_regref_text(m.index) + ", scale: "@
        + decimal_digits(m.scale as nat) + ", disp: "@ + signed_digits(m.disp) + ", label: "@ + (match m.label {
        Some(l) => some_text(str_debug(l)),
        None => "None"@,
    }) + " }"@
}

/// An operand: its kind and its value.
pub open spec fn operand_text(o: OperandV) -> Seq<char> {
    match o {
        OperandV::Register(r) => "Register("@ + regref_text(r) + ")"@,
        OperandV::Immediate(n) => "Immediate("@ + signed_digits(n) + ")"@,
        OperandV::Memory(m) => "Memory("@ + memaddr_text(m) + ")"@,
        OperandV::Label(s) => "Label("@ + str_debug(s) + ")"@,
    }
}

/// Operands separated by `, `.
pub open spec fn operand_items(os: Seq<OperandV>) -> Seq<char>
    decreases os.len(),
{
    if os.len() == 0 {
        Seq::empty()
    } else if os.len() == 1 {
        operand_text(os[0])
    } else {
        operand_items(os.drop_last()) + ", "@ + operand_text(os.last())
    }
}

/// A list of operands in brackets.
pub open spec fn operands_text(os: Seq<OperandV>) -> Seq<char> {
    "["@ + operand_items(os) + "]"@
}

/// Bytes in decimal separated by `, `.
pub open spec fn byte_items(bs: Seq<u8>) -> Seq<char>
    decreases bs.len(),
{
    if bs.len() == 0 {
        Seq::empty()
    } else if bs.len() == 1 {
        decimal_digits(bs[0] as nat)
    } else {
        byte_items(bs.drop_last()) + ", "@ + decimal_digits(bs.last() as nat)
    }
}

/// A list of bytes in brackets.
pub open spec fn bytes_text(bs: Seq<u8>) -> Seq<char> {
    "["@ + byte_items(bs) + "]"@
}

/// A token: its kind, and its text or value in brackets.
pub open spec fn token_text(t: TokenV) -> Seq<char> {
    match t {
        TokenV::Ident(s) => "Ident("@ + str_debug(s) + ")"@,
        TokenV::Number(n) => "Number("@ + signed_digits(n) + ")"@,
        TokenV::StringLit(bs) => "StringLit("@ + bytes_text(bs) + ")"@,
        TokenV::Colon => "Colon"@,
        TokenV::Comma => "Comma"@,
        TokenV::LBracket => "LBracket"@,
        TokenV::RBracket => "RBracket"@,
        TokenV::Plus => "Plus"@,
        TokenV::Minus => "Minus"@,
        TokenV::Star => "Star"@,
        TokenV::Newline => "Newline"@,
        TokenV::Eof => "Eof"@,
    }
}

/// The name of an operation.
pub fn op_text(x: Op) -> (r: &'static str)
    ensures r@ == op_name(x),
{
    match x {
        Op::Mov => "Mov",
        Op::Push => "Push",
        Op::Pop => "Pop",
        Op::Lea => "Lea",
        Op::Xchg => "Xchg",
        Op::Movzx => "Movzx",
        Op::Movsx => "Movsx",
        Op::Add => "Add",
        Op::Sub => "Sub",
        Op::Mul => "Mul",
        Op::Imul => "Imul",
        Op::Div => "Div",
        Op::Idiv => "Idiv",
        Op::Inc => "Inc",
        Op::Dec => "Dec",
        Op::Neg => "Neg",
        Op::Adc => "Adc",
        Op::Sbb => "Sbb",
        Op::And => "And",
        Op::Or => "Or",
        Op::Xor => "Xor",
        Op::Not => "Not",
        Op::Shl => "Shl",
        Op::Shr => "Shr",
        Op::Sar => "Sar",
        Op::Rol => "Rol",
        Op::Ror => "Ror",
        Op::Cmp => "Cmp",
        Op::Test => "Test",
        Op::Jmp => "Jmp",
        Op::Call => "Call",
        Op::Ret => "Ret",
        Op::Loop => "Loop",
        Op::Je => "Je",
        Op::Jne => "Jne",
        Op::Jl => "Jl",
        Op::Jle => "Jle",
        Op::Jg => "Jg",
        Op::Jge => "Jge",
        Op::Js => "Js",
        Op::Jns => "Jns",
        Op::Jc => "Jc",
        Op::Jnc => "Jnc",
        Op::Jo => "Jo",
        Op::Jno => "Jno",
        Op::Syscall => "Syscall",
        Op::Equ => "Equ",
    }
}
/// The name of a register.
pub fn register_text(x: Register) -> (r: &'static str)
    ensures r@ == register_name(x),
{
    match x {
        Register::Rax => "Rax",
        Register::Rbx => "Rbx",
        Register::Rcx => "Rcx",
        Register::Rdx => "Rdx",
        Register::Rsi => "Rsi",
        Register::Rdi => "Rdi",
        Register::Rsp => "Rsp",
        Register::Rbp => "Rbp",
        Register::R8 => "R8",
        Register::R9 => "R9",
        Register::R10 => "R10",
        Register::R11 => "R11",
        Register::R12 => "R12",
        Register::R13 => "R13",
        Register::R14 => "R14",
        Register::R15 => "R15",
    }
}
/// The name of a register width.
pub fn width_text(x: RegWidth) -> (r: &'static str)
    ensures r@ == width_name(x),
{
    match x {
        RegWidth::Byte => "Byte",
        RegWidth::ByteHi => "ByteHi",
        RegWidth::Word => "Word",
        RegWidth::Dword => "Dword",
        RegWidth::Qword => "Qword",
    }
}
/// The name of a memory operand size.
pub fn size_text(x: Size) -> (r: &'static str)
    ensures r@ == size_name(x),
{
    match x {
        Size::Byte => "Byte",
        Size::Word => "Word",
        Size::Dword => "Dword",
        Size::Qword => "Qword",
    }
}
/// An integer in decimal, with a minus sign when it is negative.
pub fn signed_string(n: i64) -> (r: String)
    ensures r@ == signed_digits(n),
{
    if n < 0 {
        let mag = (-(n as i128)) as u64;
        let mut r = "-".to_owned();
        r.append(decimal(mag).as_str());
        r
    } else {
        decimal(n as u64)
    }
}

/// A register reference with its register and width.
pub fn regref_string(r: RegRef) -> (s: String)
    ensures s@ == regref_text(r),
{
    let mut s = "RegRef { reg: ".to_owned();
    s.append(register_text(r.reg));
    s.append(", width: ");
    s.append(width_text(r.width));
    s.append(" }");
    s
}

/// An optional register reference.
fn opt_regref_string(r: Option<RegRef>) -> (s: String)
    ensures s@ == opt_regref_text(r),
{
    match r {
        Some(x) => {
            let mut s = "Some(".to_owned();
            s.append(regref_string(x).as_str());
            s.append(")");
            s
        },
        None => "None".to_owned(),
    }
}

/// A memory operand with all its fields.
pub fn memaddr_string(m: &MemAddr) -> (s: String)
    ensures s@ == memaddr_text(m@),
{
    let mut s = "MemAddr { size: ".to_owned();
    match m.size {
        Some(z) => {
            s.append("Some(");
            s.append(size_text(z));
            s.append(")");
        },
        None => s.append("None"),
    }
    s.append(", base: ");
    s.append(opt_regref_string(m.base).as_str());
    s.append(", index: ");
    s.append(opt_regref_string(m.index).as_str());
    s.append(", scale: ");
    s.append(decimal(m.scale as u64).as_str());
    s.append(", disp: ");
    s.append(signed_string(m.disp).as_str());
    s.append(", label: ");
    match &m.label {
        Some(l) => {
            s.append("Some(");
            s.append(debug_str(l.as_str()).as_str());
            s.append(")");
        },
        None => s.append("None"),
    }
    s.append(" }");
    s
}

/// An operand: its kind and its value.
pub fn operand_string(o: &Operand) -> (s: String)
    ensures s@ == operand_text(o@),
{
    let (head, body) = match o {
        Operand::Register(r) => ("Register(", regref_string(*r)),
        Operand::Immediate(n) => ("Immediate(", signed_string(*n)),
        Operand::Memory(m) => ("Memory(", memaddr_string(m)),
        Operand::Label(l) => ("Label(", debug_str(l.as_str())),
    };
    let mut s = head.to_owned();
    s.append(body.as_str());
    s.append(")");
    s
}

/// A list of operands in brackets.
pub fn operands_string(os: &Vec<Operand>) -> (s: String)
    ensures s@ == operands_text(os@.map_values(|o: Operand| o@)),
{
    let ghost vs = os@.map_values(|o: Operand| o@);
    let mut s = "[".to_owned();
    let mut i: usize = 0;
    while i < os.len()
        invariant
            i <= os.len(),
            vs == os@.map_values(|o: Operand| o@),
            s@ == "["@ + operand_items(vs.take(i as int)),
        decreases os.len() - i,
    {
        if i > 0 {
            s.append(", ");
        }
        s.append(operand_string(&os[i]).as_str());
        proof {
            let t = vs.take(i as int + 1);
            assert(t.drop_last() =~= vs.take(i as int));
            assert(t.last() == vs[i as int]);
            if i == 0 {
                assert(vs.take(0) =~= Seq::<OperandV>::empty());
            }
        }
        i = i + 1;
    }
    assert(vs.take(os.len() as int) =~= vs);
    s.append("]");
    s
}

/// Bytes in decimal in brackets.
fn bytes_string(bs: &Vec<u8>) -> (s: String)
    ensures s@ == bytes_text(bs@),
{
    let mut s = "[".to_owned();
    let mut i: usize = 0;
    while i < bs.len()
        invariant
            i <= bs.len(),
            s@ == "["@ + byte_items(bs@.take(i as int)),
        decreases bs.len() - i,
    {
        if i > 0 {
            s.append(", ");
        }
        s.append(decimal(bs[i] as u64).as_str());
        proof {
            let t = bs@.take(i as int + 1);
            assert(t.drop_last() =~= bs@.take(i as int));
            assert(t.last() == bs@[i as int]);
            if i == 0 {
                assert(bs@.take(0) =~= Seq::<u8>::empty());
            }
        }
        i = i + 1;
    }
    assert(bs@.take(bs.len() as int) =~= bs@);
    s.append("]");
    s
}

/// A token: its kind, and its text or value in brackets.
pub fn token_string(t: &Token) -> (s: String)
    ensures s@ == token_text(t@),
{
    match t {
        Token::Ident(x) => {
            let mut s = "Ident(".to_owned();
            s.append(debug_str(x.as_str()).as_str());
            s.append(")");
            s
        },
        Token::Number(n) => {
            let mut s = "Number(".to_owned();
            s.append(signed_string(*n).as_str());
            s.append(")");
            s
        },
        Token::StringLit(bs) => {
            let mut s = "StringLit(".to_owned();
            s.append(bytes_string(bs).as_str());
            s.append(")");
            s
        },
        Token::Colon => "Colon".to_owned(),
        Token::Comma => "Comma".to_owned(),
        Token::LBracket => "LBracket".to_owned(),
        Token::RBracket => "RBracket".to_owned(),
        Token::Plus => "Plus".to_owned(),
        Token::Minus => "Minus".to_owned(),
        Token::Star => "Star".to_owned(),
        Token::Newline => "Newline".to_owned(),
        Token::Eof => "Eof".to_owned(),
    }
}

} // verus!
