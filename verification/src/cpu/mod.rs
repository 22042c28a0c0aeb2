//! The processor: registers, memory, the loaded program and the system-call buffers.
pub mod alu;
pub mod execute;
pub mod laws;
pub mod memory;
pub mod registers;
pub mod semantics;
pub mod syscall;

use vstd::prelude::*;
use crate::ast::{AsmLine, AsmLineV, Operand, Register};
use vstd::utf8::encode_utf8;
use crate::cpu::execute::execute;
use crate::cpu::memory::{access_fault, splice, Memory};
use crate::cpu::registers::{clear_flags, Registers, RegsV};
use crate::cpu::semantics::{execute_spec, IoV, MachineV};
use crate::cpu::syscall::{append_bytes, SyscallIo};
use crate::error::{Fault, SimError};
use crate::program::{Program, ProgramV, DATA_BASE, MEM_SIZE, STACK_TOP, TEXT_BASE};
use crate::show::{op_name, op_text, operands_string, operands_text};
use crate::text::{hex_digits, zero_pad, decimal_digits, hex_text, concat2, concat3, concat4, decimal, hex, hex_padded, owned};

verus! {

/// The processor's state apart from the program.
pub struct CpuV {
    pub regs: RegsV,
    pub mem: Seq<u8>,
    pub halted: bool,
    pub steps: u64,
    pub debug: bool,
    pub max_steps: u64,
    pub stdout: Seq<u8>,
    pub stderr: Seq<u8>,
    pub stdin: Seq<u8>,
    pub stdin_pos: usize,
    pub exit_code: i32,
}

/// The line at instruction address `rip`, if there is one.
pub open spec fn line_at(prog: ProgramV, rip: u64) -> Option<AsmLineV> {
    if TEXT_BASE <= rip && rip - TEXT_BASE < prog.instructions.len() {
        Some(prog.instructions[rip - TEXT_BASE])
    } else {
        None
    }
}

/// The system-call buffers of a processor whose error output has `trace` added.
pub open spec fn io_of(c: CpuV, trace: Seq<u8>) -> IoV {
    IoV { stdout: c.stdout, stderr: c.stderr + trace, stdin: c.stdin, stdin_pos: c.stdin_pos, exit_code: c.exit_code }
}

/// A processor state that takes registers, memory and buffers from `s`.
pub open spec fn with_machine(c: CpuV, s: MachineV) -> CpuV {
    CpuV { regs: s.regs, mem: s.mem, stdout: s.io.stdout, stderr: s.io.stderr, stdin_pos: s.io.stdin_pos, exit_code: s.io.exit_code, ..c }
}

/// The error of an instruction pointer with no line of the program at it.
pub open spec fn fetch_fault(prog: ProgramV, rip: u64) -> Fault {
    if rip < TEXT_BASE {
        Fault::Runtime { rip, msg: "rip "@ + hex_text(rip as nat) + " below text base"@ }
    } else {
        Fault::Runtime {
            rip,
            msg: "rip "@ + hex_text(rip as nat) + " (idx "@ + decimal_digits((rip - TEXT_BASE) as nat)
                + ") out of instruction range"@,
        }
    }
}

/// One step: a halted processor stays put; a label or directive line is skipped; an
/// instruction runs with the instruction pointer past it, is counted, and ends the run with
/// an error once the count reaches the limit. `trace` is what debug mode writes to the error
/// output before the instruction.
pub open spec fn step_spec(c: CpuV, prog: ProgramV, trace: Seq<u8>) -> (Result<bool, Fault>, CpuV) {
    if c.halted {
        (Ok(true), c)
    } else {
        match line_at(prog, c.regs.rip) {
            None => (Err(fetch_fault(prog, c.regs.rip)), c),
            Some(AsmLineV::Instruction(i)) => {
                let rip1 = (c.regs.rip + 1) as u64;
                let s = MachineV { regs: RegsV { rip: rip1, ..c.regs }, mem: c.mem, io: io_of(c, trace) };
                let (o, s2) = execute_spec(i, s, prog.symbols);
                let c2 = with_machine(c, s2);
                let counted = CpuV { steps: (c.steps + 1) as u64, ..c2 };
                match o {
                    Err(m) => (Err(Fault::Runtime { rip: rip1, msg: m }), c2),
                    Ok(true) => (Ok(true), CpuV { halted: true, ..counted }),
                    Ok(false) => if c.steps + 1 >= c.max_steps {
                        (Err(Fault::Runtime {
                            rip: s2.regs.rip,
                            msg: "exceeded max steps ("@ + decimal_digits(c.max_steps as nat) + ")"@,
                        }), counted)
                    } else {
                        (Ok(false), counted)
                    },
                }
            },
            Some(_) => (Ok(false), CpuV { regs: RegsV { rip: (c.regs.rip + 1) as u64, ..c.regs }, ..c }),
        }
    }
}

/// The stage and position of an error, or the value.
pub open spec fn outcome<T>(r: Result<T, SimError>) -> Result<T, Fault> {
    match r {
        Ok(v) => Ok(v),
        Err(e) => Err(e@),
    }
}

/// A register value as sixteen hexadecimal digits after `0x`.
pub open spec fn hex16(v: u64) -> Seq<char> {
    seq!['0', 'x'] + zero_pad(hex_digits(v as nat), 16)
}

/// A flag as the digit 1 or 0.
pub open spec fn flag_digit(b: bool) -> Seq<char> {
    if b { "1"@ } else { "0"@ }
}

/// The register dump: the first eight registers, the instruction pointer and the flags, on
/// three lines.
pub open spec fn regs_dump(r: RegsV) -> Seq<char> {
    "rax="@ + hex16(r.gpr[0]) + " rbx="@ + hex16(r.gpr[1]) + " rcx="@ + hex16(r.gpr[2]) + " rdx="@ + hex16(r.gpr[3])
        + "\nrsi="@ + hex16(r.gpr[4]) + " rdi="@ + hex16(r.gpr[5]) + " rsp="@ + hex16(r.gpr[6]) + " rbp="@ + hex16(r.gpr[7])
        + "\nrip="@ + hex16(r.rip) + "  CF="@ + flag_digit(r.flags.cf) + " ZF="@ + flag_digit(r.flags.zf)
        + " SF="@ + flag_digit(r.flags.sf) + " OF="@ + flag_digit(r.flags.of) + " PF="@ + flag_digit(r.flags.pf) + "\n"@
}

/// What debug mode writes to the error output before the instruction at the instruction
/// pointer runs: the register dump, with the instruction pointer already past the
/// instruction, then a line with the operation and the operands. Nothing outside debug mode.
pub open spec fn debug_text(c: CpuV, prog: ProgramV) -> Seq<u8> {
    if c.debug && !c.halted {
        match line_at(prog, c.regs.rip) {
            Some(AsmLineV::Instruction(i)) => encode_utf8(regs_dump(RegsV { rip: (c.regs.rip + 1) as u64, ..c.regs }))
                + encode_utf8("  \u{2192} "@ + op_name(i.op) + " "@ + operands_text(i.operands)) + seq![10u8],
            _ => Seq::empty(),
        }
    } else {
        Seq::empty()
    }
}

/// A processor freshly loaded with `prog`: registers zero but the stack pointer at the stack
/// top, the instruction pointer at the entry, flags clear, the data at its base in zeroed
/// memory, and empty buffers.
pub open spec fn loaded(prog: ProgramV, debug: bool, max_steps: u64) -> CpuV {
    CpuV {
        regs: RegsV {
            gpr: Seq::new(16, |i: int| 0u64).update(6, STACK_TOP),
            rip: prog.entry,
            flags: clear_flags(),
        },
        mem: splice(Seq::new(MEM_SIZE as nat, |i: int| 0u8), DATA_BASE as int, prog.data),
        halted: false,
        steps: 0,
        debug,
        max_steps,
        stdout: Seq::empty(),
        stderr: Seq::empty(),
        stdin: Seq::empty(),
        stdin_pos: 0,
        exit_code: 0,
    }
}

/// The source line of the instruction at the instruction pointer; 0 once halted or when no
/// instruction is there.
pub open spec fn source_line(c: CpuV, prog: ProgramV) -> usize {
    if c.halted {
        0
    } else {
        match line_at(prog, c.regs.rip) {
            Some(AsmLineV::Instruction(i)) => i.line,
            _ => 0,
        }
    }
}

/// One step from `c` gives the outcome `o` and the state `c2`.
pub open spec fn steps_to(c: CpuV, prog: ProgramV, o: Result<bool, Fault>, c2: CpuV) -> bool {
    step_spec(c, prog, debug_text(c, prog)) == (o, c2)
}

pub struct Cpu {
    pub regs: Registers,
    pub mem: Memory,
    pub prog: Program,
    pub halted: bool,
    pub steps: u64,
    pub debug: bool,
    pub max_steps: u64,
    pub stdout: Vec<u8>,
    pub stderr: Vec<u8>,
    pub stdin: Vec<u8>,
    /// Read position in `stdin`.
    pub stdin_pos: usize,
    pub exit_code: i32,
}

impl View for Cpu {
    type V = CpuV;

    open spec fn view(&self) -> CpuV {
        CpuV {
            regs: self.regs@,
            mem: self.mem.data@,
            halted: self.halted,
            steps: self.steps,
            debug: self.debug,
            max_steps: self.max_steps,
            stdout: self.stdout@,
            stderr: self.stderr@,
            stdin: self.stdin@,
            stdin_pos: self.stdin_pos,
            exit_code: self.exit_code,
        }
    }
}

impl Cpu {
    /// Memory has its full size, the input position lies within the input, and the program
    /// fits the address space.
    pub open spec fn wf(&self) -> bool {
        &&& self.mem.wf()
        &&& self.stdin_pos <= self.stdin@.len()
        &&& self.prog.instructions@.len() <= isize::MAX
    }

    pub fn new(prog: Program, debug: bool, max_steps: u64) -> (r: Result<Self, SimError>)
        requires prog.instructions@.len() <= isize::MAX,
        ensures
            r is Ok <==> DATA_BASE + prog.data@.len() <= MEM_SIZE,
            r matches Err(e) ==> e@ == access_fault(DATA_BASE, prog.data@.len() as u64, true, 0),
            r matches Ok(c) ==> {
                &&& c.wf()
                &&& c.prog == prog
                &&& c@ == loaded(prog@, debug, max_steps)
            },
    {
        let mut mem = Memory::new();
        mem.write_bytes(DATA_BASE, prog.data.as_slice(), 0)?;
        let mut regs = Registers::new();
        regs.write_named(Register::Rsp, STACK_TOP);
        regs.rip = prog.entry;
        Ok(Cpu {
            regs,
            mem,
            prog,
            halted: false,
            steps: 0,
            debug,
            max_steps,
            stdout: Vec::new(),
            stderr: Vec::new(),
            stdin: Vec::new(),
            stdin_pos: 0,
            exit_code: 0,
        })
    }

    /// The index of the line at the instruction pointer.
    fn fetch(&self) -> (r: Result<usize, SimError>)
        ensures
            match line_at(self.prog@, self.regs.rip) {
                Some(_) => r matches Ok(i) && i == self.regs.rip - TEXT_BASE && i < self.prog.instructions@.len(),
                None => r matches Err(e) && e@ == fetch_fault(self.prog@, self.regs.rip),
            },
    {
        let rip = self.regs.rip;
        if rip < TEXT_BASE {
            return Err(SimError::Runtime { rip, msg: concat3("rip ", hex(rip).as_str(), " below text base") });
        }
        let offset = rip - TEXT_BASE;
        if offset >= self.prog.instructions.len() as u64 {
            let head = concat4("rip ", hex(rip).as_str(), " (idx ", decimal(offset).as_str());
            return Err(SimError::Runtime { rip, msg: concat2(head.as_str(), ") out of instruction range") });
        }
        Ok(offset as usize)
    }

    /// Executes one instruction. Returns true when the program has halted.
    #[verifier::rlimit(30)]
    pub fn step(&mut self) -> (r: Result<bool, SimError>)
        requires
            old(self).wf(),
            old(self).steps < u64::MAX,
        ensures
            final(self).wf(),
            final(self).prog == old(self).prog,
            steps_to(old(self)@, old(self).prog@, outcome(r), final(self)@),
    {
        if self.halted {
            assert(step_spec(old(self)@, old(self).prog@, Seq::<u8>::empty()).1 == self@);
            return Ok(true);
        }
        let idx = match self.fetch() {
            Ok(i) => i,
            Err(e) => {
                assert(step_spec(old(self)@, old(self).prog@, Seq::<u8>::empty()).1 == self@);
                return Err(e);
            },
        };
        let rip = self.regs.rip;
        match &self.prog.instructions[idx] {
            AsmLine::Instruction(instr) => {
                self.regs.rip = rip + 1;
                let ghost before = self.stderr@;
                if self.debug {
                    let text = regs_text(&self.regs);
                    append_bytes(&mut self.stderr, text.as_str().as_bytes());
                    let line = concat4("  \u{2192} ", op_text(instr.op), " ", operands_string(&instr.operands).as_str());
                    append_bytes(&mut self.stderr, line.as_str().as_bytes());
                    self.stderr.push(10u8);
                    proof {
                        assert(instr.operands@.map_values(|o: Operand| o@) =~= instr@.operands);
                    }
                }
                let ghost trace = self.stderr@.subrange(before.len() as int, self.stderr@.len() as int);
                assert(self.stderr@ =~= before + trace);
                assert(trace =~= debug_text(old(self)@, old(self).prog@));
                let mut out: Vec<u8> = Vec::new();
                let mut err: Vec<u8> = Vec::new();
                std::mem::swap(&mut out, &mut self.stdout);
                std::mem::swap(&mut err, &mut self.stderr);
                let mut io = SyscallIo { stdout: out, stderr: err, stdin: self.stdin.as_slice(), stdin_pos: self.stdin_pos, exit_code: self.exit_code };
                let res = execute(instr, &mut self.regs, &mut self.mem, &self.prog.symbols, &mut io);
                self.stdout = io.stdout;
                self.stderr = io.stderr;
                self.stdin_pos = io.stdin_pos;
                self.exit_code = io.exit_code;
                let halt = match res {
                    Ok(h) => h,
                    Err(e) => {
                        assert(step_spec(old(self)@, old(self).prog@, trace).1 == self@);
                        assert(e@ == (Fault::Runtime { rip: (old(self).regs.rip + 1) as u64, msg: e@->Runtime_msg }));
                        assert(step_spec(old(self)@, old(self).prog@, trace).0 == Err::<bool, Fault>(e@));
                        return Err(e);
                    },
                };
                self.steps = self.steps + 1;
                if halt {
                    self.halted = true;
                    return Ok(true);
                }
                if self.steps >= self.max_steps {
                    let msg = concat3("exceeded max steps (", decimal(self.max_steps).as_str(), ")");
                    let e = SimError::Runtime { rip: self.regs.rip, msg };
                    assert(step_spec(old(self)@, old(self).prog@, trace).1 == self@);
                    assert(step_spec(old(self)@, old(self).prog@, trace).0 == Err::<bool, Fault>(e@));
                    return Err(e);
                }
                Ok(false)
            },
            _ => {
                self.regs.rip = rip + 1;
                assert(step_spec(old(self)@, old(self).prog@, Seq::<u8>::empty()).1 == self@);
                Ok(false)
            },
        }
    }

    /// Runs until the program halts or an error stops it.
    pub fn run(&mut self) -> (r: Result<(), SimError>)
        requires
            old(self).wf(),
            old(self).steps < u64::MAX,
        ensures
            final(self).wf(),
            final(self).prog == old(self).prog,
            exists|trace: Seq<CpuV>| #[trigger] is_run(trace, old(self).prog@, outcome(r)) && trace[0] == old(self)@ && trace.last() == final(self)@,
    {
        let ghost prog = self.prog@;
        let ghost mut trace: Seq<CpuV> = seq![self@];
        loop
            invariant
                self.wf(),
                self.prog == old(self).prog,
                prog == self.prog@,
                self.steps < u64::MAX,
                trace.len() >= 1,
                trace[0] == old(self)@,
                trace.last() == self@,
                forall|i: int| 0 <= i < trace.len() - 1 ==> #[trigger] steps_to(trace[i], prog, Ok(false), trace[i + 1]),
            decreases step_budget(self@), line_budget(self@, prog),
        {
            let ghost before = self@;
            let res = self.step();
            proof {
                trace = trace.push(self@);
                assert(steps_to(trace[trace.len() - 2], prog, outcome(res), trace[trace.len() - 1]));
            }
            match res {
                Ok(true) => {
                    assert(is_run(trace, prog, outcome(Ok::<(), SimError>(()))));
                    return Ok(());
                },
                Ok(false) => {
                    proof { lemma_step_progress(before, prog, debug_text(before, prog), self@); }
                },
                Err(e) => {
                    assert(is_run(trace, prog, outcome(Err::<(), SimError>(e))));
                    return Err(e);
                },
            }
        }
    }

    /// The source line of the instruction at the instruction pointer; 0 once halted or when
    /// no instruction is there.
    pub fn current_source_line(&self) -> (l: usize)
        ensures l == source_line(self@, self.prog@),
    {
        if self.halted {
            return 0;
        }
        match self.fetch() {
            Ok(idx) => match &self.prog.instructions[idx] {
                AsmLine::Instruction(i) => i.line,
                _ => 0,
            },
            Err(_) => 0,
        }
    }

    /// Takes all buffered standard output.
    pub fn take_stdout(&mut self) -> (out: Vec<u8>)
        ensures
            out@ == old(self).stdout@,
            final(self)@ == (CpuV { stdout: Seq::empty(), ..old(self)@ }),
            final(self).prog == old(self).prog,
            final(self).wf() == old(self).wf(),
    {
        let mut out: Vec<u8> = Vec::new();
        std::mem::swap(&mut out, &mut self.stdout);
        out
    }

    /// Takes all buffered error output.
    pub fn take_stderr(&mut self) -> (err: Vec<u8>)
        ensures
            err@ == old(self).stderr@,
            final(self)@ == (CpuV { stderr: Seq::empty(), ..old(self)@ }),
            final(self).prog == old(self).prog,
            final(self).wf() == old(self).wf(),
    {
        let mut err: Vec<u8> = Vec::new();
        std::mem::swap(&mut err, &mut self.stderr);
        err
    }

    /// Appends a dump of the registers and flags to the error output.
    pub fn print_regs(&mut self)
        ensures
            final(self).stderr@ == old(self).stderr@ + encode_utf8(regs_dump(old(self).regs@)),
            final(self)@ == (CpuV { stderr: final(self).stderr@, ..old(self)@ }),
            final(self).prog == old(self).prog,
            final(self).wf() == old(self).wf(),
    {
        let text = regs_text(&self.regs);
        append_bytes(&mut self.stderr, text.as_str().as_bytes());
    }
}

/// A sequence of states that a run goes through: every step but the last goes on, and the
/// last one halts (for `Ok`) or fails with the error.
pub open spec fn is_run(trace: Seq<CpuV>, prog: ProgramV, o: Result<(), Fault>) -> bool {
    &&& trace.len() >= 2
    &&& forall|i: int| 0 <= i < trace.len() - 2 ==> #[trigger] steps_to(trace[i], prog, Ok(false), trace[i + 1])
    &&& match o {
        Ok(_) => steps_to(trace[trace.len() - 2], prog, Ok(true), trace[trace.len() - 1]),
        Err(f) => steps_to(trace[trace.len() - 2], prog, Err(f), trace[trace.len() - 1]),
    }
}

/// How many more instructions may run before the step limit.
pub open spec fn step_budget(c: CpuV) -> int {
    if c.steps < c.max_steps { c.max_steps - c.steps } else { 0 }
}

/// How many lines lie from the instruction pointer to the end of the program.
pub open spec fn line_budget(c: CpuV, prog: ProgramV) -> int {
    if TEXT_BASE <= c.regs.rip && c.regs.rip - TEXT_BASE < prog.instructions.len() {
        prog.instructions.len() - (c.regs.rip - TEXT_BASE)
    } else {
        0
    }
}

/// A step that goes on either runs an instruction within the step limit or moves past a
/// line that is no instruction.
pub proof fn lemma_step_progress(c: CpuV, prog: ProgramV, t: Seq<u8>, c2: CpuV)
    requires
        step_spec(c, prog, t) == (Ok::<bool, Fault>(false), c2),
        prog.instructions.len() <= isize::MAX,
    ensures
        (0 <= step_budget(c2) < step_budget(c)) || (step_budget(c2) == step_budget(c) && 0 <= line_budget(c2, prog) < line_budget(c, prog)),
        c2.steps < c.steps + 1 || c2.steps < c2.max_steps,
{
    if !c.halted {
        match line_at(prog, c.regs.rip) {
            Some(AsmLineV::Instruction(i)) => {
                let rip1 = (c.regs.rip + 1) as u64;
                let s = MachineV { regs: RegsV { rip: rip1, ..c.regs }, mem: c.mem, io: io_of(c, t) };
                let (o, s2) = execute_spec(i, s, prog.symbols);
                assert(o == Ok::<bool, Seq<char>>(false));
                assert(c2.steps == c.steps + 1 && c2.max_steps == c.max_steps);
            },
            Some(_) => {
                assert(c2.steps == c.steps && c2.max_steps == c.max_steps);
            },
            None => {},
        }
    }
}

/// The register dump that debug mode writes: the first eight registers, the instruction
/// pointer and the flags.
fn regs_text(r: &Registers) -> (s: String)
    ensures s@ == regs_dump(r@),
{
    let mut s = owned("rax=");
    s.append(hex_padded(r.gpr[0]).as_str());
    s.append(" rbx=");
    s.append(hex_padded(r.gpr[1]).as_str());
    s.append(" rcx=");
    s.append(hex_padded(r.gpr[2]).as_str());
    s.append(" rdx=");
    s.append(hex_padded(r.gpr[3]).as_str());
    s.append("\nrsi=");
    s.append(hex_padded(r.gpr[4]).as_str());
    s.append(" rdi=");
    s.append(hex_padded(r.gpr[5]).as_str());
    s.append(" rsp=");
    s.append(hex_padded(r.gpr[6]).as_str());
    s.append(" rbp=");
    s.append(hex_padded(r.gpr[7]).as_str());
    s.append("\nrip=");
    s.append(hex_padded(r.rip).as_str());
    s.append("  CF=");
    s.append(if r.flags.cf { "1" } else { "0" });
    s.append(" ZF=");
    s.append(if r.flags.zf { "1" } else { "0" });
    s.append(" SF=");
    s.append(if r.flags.sf { "1" } else { "0" });
    s.append(" OF=");
    s.append(if r.flags.of { "1" } else { "0" });
    s.append(" PF=");
    s.append(if r.flags.pf { "1" } else { "0" });
    s.append("\n");
    s
}

} // verus!
