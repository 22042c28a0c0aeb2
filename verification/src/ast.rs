//! The assembled program's syntax: registers, operands, instructions and directives.
use vstd::prelude::*;

verus! {

#[derive(Debug, Clone, Copy, PartialEq, Eq, Structural)]
pub enum Register {
    Rax, Rbx, Rcx, Rdx, Rsi, Rdi, Rsp, Rbp,
    R8, R9, R10, R11, R12, R13, R14, R15,
}

/// Position of a register in the register file, in declaration order.
pub open spec fn reg_index(r: Register) -> int {
    match r {
        Register::Rax => 0, Register::Rbx => 1, Register::Rcx => 2, Register::Rdx => 3,
        Register::Rsi => 4, Register::Rdi => 5, Register::Rsp => 6, Register::Rbp => 7,
        Register::R8 => 8, Register::R9 => 9, Register::R10 => 10, Register::R11 => 11,
        Register::R12 => 12, Register::R13 => 13, Register::R14 => 14, Register::R15 => 15,
    }
}

impl Register {
    pub fn index(self) -> (i: usize)
        ensures
            i == reg_index(self),
            i < 16,
    {
        match self {
            Register::Rax => 0, Register::Rbx => 1, Register::Rcx => 2, Register::Rdx => 3,
            Register::Rsi => 4, Register::Rdi => 5, Register::Rsp => 6, Register::Rbp => 7,
            Register::R8 => 8, Register::R9 => 9, Register::R10 => 10, Register::R11 => 11,
            Register::R12 => 12, Register::R13 => 13, Register::R14 => 14, Register::R15 => 15,
        }
    }
}

/// Distinct registers sit at distinct positions of the register file.
pub proof fn lemma_reg_index_injective(r1: Register, r2: Register)
    ensures
        (reg_index(r1) == reg_index(r2)) == (r1 == r2),
        0 <= reg_index(r1) < 16,
{
}

#[derive(Debug, Clone, Copy, PartialEq, Eq, Structural)]
pub enum RegWidth {
    Byte,
    ByteHi,
    Word,
    Dword,
    Qword,
}

#[derive(Debug, Clone, Copy, PartialEq, Eq, Structural)]
pub struct RegRef {
    pub reg: Register,
    pub width: RegWidth,
}

#[derive(Debug, Clone, Copy, PartialEq, Eq, Structural)]
pub enum Size {
    Byte,
    Word,
    Dword,
    Qword,
}

/// Number of bytes in a memory operand of size `s`.
pub open spec fn size_bytes(s: Size) -> u64 {
    match s {
        Size::Byte => 1,
        Size::Word => 2,
        Size::Dword => 4,
        Size::Qword => 8,
    }
}

impl Size {
    pub fn bytes(self) -> (n: u64)
        ensures n == size_bytes(self),
    {
        match self {
            Size::Byte => 1,
            Size::Word => 2,
            Size::Dword => 4,
            Size::Qword => 8,
        }
    }
}

#[derive(Debug, PartialEq, Eq)]
pub struct MemAddr {
    pub size: Option<Size>,
    pub base: Option<RegRef>,
    pub index: Option<RegRef>,
    pub scale: u8,
    pub disp: i64,
    pub label: Option<String>,
}

/// A memory operand with its label as characters.
pub struct MemAddrV {
    pub size: Option<Size>,
    pub base: Option<RegRef>,
    pub index: Option<RegRef>,
    pub scale: u8,
    pub disp: i64,
    pub label: Option<Seq<char>>,
}

impl View for MemAddr {
    type V = MemAddrV;

    open spec fn view(&self) -> MemAddrV {
        MemAddrV {
            size: self.size,
            base: self.base,
            index: self.index,
            scale: self.scale,
            disp: self.disp,
            label: match self.label {
                Some(s) => Some(s@),
                None => None,
            },
        }
    }
}

#[derive(Debug, PartialEq, Eq)]
pub enum Operand {
    Register(RegRef),
    Immediate(i64),
    Memory(MemAddr),
    Label(String),
}

impl Clone for MemAddr {
    fn clone(&self) -> (r: Self)
        ensures r@ == self@,
    {
        MemAddr {
            size: self.size,
            base: self.base,
            index: self.index,
            scale: self.scale,
            disp: self.disp,
            label: match &self.label {
                Some(s) => Some(s.clone()),
                None => None,
            },
        }
    }
}

impl Clone for Operand {
    fn clone(&self) -> (r: Self)
        ensures r@ == self@,
    {
        match self {
            Operand::Register(r) => Operand::Register(*r),
            Operand::Immediate(n) => Operand::Immediate(*n),
            Operand::Memory(m) => Operand::Memory(m.clone()),
            Operand::Label(s) => Operand::Label(s.clone()),
        }
    }
}

pub enum OperandV {
    Register(RegRef),
    Immediate(i64),
    Memory(MemAddrV),
    Label(Seq<char>),
}

impl View for Operand {
    type V = OperandV;

    open spec fn view(&self) -> OperandV {
        match self {
            Operand::Register(r) => OperandV::Register(*r),
            Operand::Immediate(n) => OperandV::Immediate(*n),
            Operand::Memory(m) => OperandV::Memory(m@),
            Operand::Label(s) => OperandV::Label(s@),
        }
    }
}

#[derive(Debug, Clone, Copy, PartialEq, Eq, Structural)]
pub enum Op {
    // Data movement
    Mov, Push, Pop, Lea, Xchg, Movzx, Movsx,
    // Arithmetic
    Add, Sub, Mul, Imul, Div, Idiv, Inc, Dec, Neg, Adc, Sbb,
    // Logic
    And, Or, Xor, Not, Shl, Shr, Sar, Rol, Ror,
    // Compare
    Cmp, Test,
    // Control flow
    Jmp, Call, Ret, Loop,
    Je, Jne, Jl, Jle, Jg, Jge,
    Js, Jns, Jc, Jnc, Jo, Jno,
    // Syscall
    Syscall,
    // Constant definition, resolved before execution
    Equ,
}

#[derive(Debug)]
pub struct Instruction {
    pub op: Op,
    pub operands: Vec<Operand>,
    pub line: usize,
}

impl Clone for Instruction {
    fn clone(&self) -> (r: Self)
        ensures r@ == self@,
    {
        let operands = self.operands.clone();
        assert(operands@.map_values(|o: Operand| o@) =~= self.operands@.map_values(|o: Operand| o@));
        Instruction { op: self.op, operands, line: self.line }
    }
}

pub struct InstructionV {
    pub op: Op,
    pub operands: Seq<OperandV>,
    pub line: usize,
}

impl View for Instruction {
    type V = InstructionV;

    open spec fn view(&self) -> InstructionV {
        InstructionV { op: self.op, operands: self.operands@.map_values(|o: Operand| o@), line: self.line }
    }
}

#[derive(Debug)]
pub enum Directive {
    Section(String),
    Global(String),
    Db(Vec<u8>),
    Dw(Vec<u16>),
    Dd(Vec<u32>),
    Dq(Vec<u64>),
    Times { count: usize, inner: Box<Directive> },
    Equ(String, i64),
}

impl Clone for Directive {
    fn clone(&self) -> (r: Self)
        ensures r@ == self@,
        decreases self,
    {
        match self {
            Directive::Section(s) => Directive::Section(s.clone()),
            Directive::Global(s) => Directive::Global(s.clone()),
            Directive::Db(v) => {
                let c = v.clone();
                assert(c@ =~= v@);
                Directive::Db(c)
            },
            Directive::Dw(v) => {
                let c = v.clone();
                assert(c@ =~= v@);
                Directive::Dw(c)
            },
            Directive::Dd(v) => {
                let c = v.clone();
                assert(c@ =~= v@);
                Directive::Dd(c)
            },
            Directive::Dq(v) => {
                let c = v.clone();
                assert(c@ =~= v@);
                Directive::Dq(c)
            },
            Directive::Times { count, inner } => {
                let d = (**inner).clone();
                Directive::Times { count: *count, inner: Box::new(d) }
            },
            Directive::Equ(s, n) => Directive::Equ(s.clone(), *n),
        }
    }
}

pub enum DirectiveV {
    Section(Seq<char>),
    Global(Seq<char>),
    Db(Seq<u8>),
    Dw(Seq<u16>),
    Dd(Seq<u32>),
    Dq(Seq<u64>),
    Times { count: usize, inner: Box<DirectiveV> },
    Equ(Seq<char>, i64),
}

pub open spec fn directive_view(d: Directive) -> DirectiveV
    decreases d,
{
    match d {
        Directive::Section(s) => DirectiveV::Section(s@),
        Directive::Global(s) => DirectiveV::Global(s@),
        Directive::Db(v) => DirectiveV::Db(v@),
        Directive::Dw(v) => DirectiveV::Dw(v@),
        Directive::Dd(v) => DirectiveV::Dd(v@),
        Directive::Dq(v) => DirectiveV::Dq(v@),
        Directive::Times { count, inner } => DirectiveV::Times { count, inner: Box::new(directive_view(*inner)) },
        Directive::Equ(s, n) => DirectiveV::Equ(s@, n),
    }
}

impl View for Directive {
    type V = DirectiveV;

    open spec fn view(&self) -> DirectiveV {
        directive_view(*self)
    }
}

#[derive(Debug)]
pub enum AsmLine {
    Label(String),
    Instruction(Instruction),
    Directive(Directive),
}

impl Clone for AsmLine {
    fn clone(&self) -> (r: Self)
        ensures r@ == self@,
    {
        match self {
            AsmLine::Label(s) => AsmLine::Label(s.clone()),
            AsmLine::Instruction(i) => AsmLine::Instruction(i.clone()),
            AsmLine::Directive(d) => AsmLine::Directive(d.clone()),
        }
    }
}

pub enum AsmLineV {
    Label(Seq<char>),
    Instruction(InstructionV),
    Directive(DirectiveV),
}

impl View for AsmLine {
    type V = AsmLineV;

    open spec fn view(&self) -> AsmLineV {
        match self {
            AsmLine::Label(s) => AsmLineV::Label(s@),
            AsmLine::Instruction(i) => AsmLineV::Instruction(i@),
            AsmLine::Directive(d) => AsmLineV::Directive(d@),
        }
    }
}

/// The views of a sequence of lines.
pub open spec fn lines_view(lines: Seq<AsmLine>) -> Seq<AsmLineV> {
    lines.map_values(|l: AsmLine| l@)
}

} // verus!
