//! A source assembled and loaded, run a step at a time or to the end, with breakpoints on
//! source lines: what a browser front end drives.
use std::collections::HashSet;
use vstd::prelude::*;
use vstd::string::StringSliceAdditionalSpecFns;
use vstd::utf8::{decode_utf8, encode_utf8, valid_utf8};
use crate::assembler::{assemble_lines, Assembler};
use crate::cpu::memory::{access_fault, le_value};
use crate::cpu::registers::{clear_flags, RegsV};
use crate::cpu::syscall::append_bytes;
use crate::cpu::{
    debug_text, flag_digit, hex16, lemma_step_progress, line_budget, loaded, source_line, step_budget, step_spec,
    Cpu, CpuV,
};
use crate::error::{fault_text, Fault, SimError};
use crate::lexer::{law_tokens_end_with_eof, scan_tokens, Cursor, Lexer};
use crate::parser::{parse_tokens, Parser};
use crate::program::{ProgramV, DATA_BASE, MEM_SIZE, TEXT_BASE};
use crate::text::{concat3, decimal, decimal_digits, hex_padded, lossy_text, owned, utf8_lossy};

verus! {

broadcast use vstd::std_specs::hash::group_hash_axioms;

/// The step limit of a simulator.
pub const MAX_STEPS: u64 = 1_000_000;

/// An error as a simulator reports it: kind (1 lex, 2 parse, 3 assemble, 4 load), line,
/// column and message. A lex, parse or assemble error met at its own stage gives its position
/// and bare message; any other error gives 0, 0 and its whole text.
pub open spec fn stage_error(kind: u32, f: Fault) -> (u32, u32, u32, Seq<char>) {
    match f {
        Fault::Lex { line, col, msg } => if kind == 1 {
            (1u32, line as u32, col as u32, msg)
        } else {
            (kind, 0u32, 0u32, fault_text(f))
        },
        Fault::Parse { line, msg } => if kind == 2 {
            (2u32, line as u32, 0u32, msg)
        } else {
            (kind, 0u32, 0u32, fault_text(f))
        },
        Fault::Assemble { msg } => if kind == 3 { (3u32, 0u32, 0u32, msg) } else { (kind, 0u32, 0u32, fault_text(f)) },
        Fault::Runtime { .. } => (kind, 0u32, 0u32, fault_text(f)),
    }
}

/// The program that a source assembles to, or the error of the first stage that refuses it.
pub open spec fn assembled(src: Seq<u8>) -> Result<ProgramV, (u32, u32, u32, Seq<char>)> {
    match scan_tokens(src, Cursor { pos: 0, line: 1, col: 1 }) {
        Err(f) => Err(stage_error(1, f)),
        Ok(ts) => match parse_tokens(ts, 0) {
            Err(f) => Err(stage_error(2, f)),
            Ok(ls) => match assemble_lines(ls) {
                Err(f) => Err(stage_error(3, f)),
                Ok(p) => Ok(p),
            },
        },
    }
}

/// What building from a source gives: the processor loaded with the program, outside debug
/// mode and with the simulator's step limit, or the error.
pub open spec fn built(src: Seq<u8>) -> Result<(CpuV, ProgramV), (u32, u32, u32, Seq<char>)> {
    match assembled(src) {
        Err(e) => Err(e),
        Ok(p) => if p.instructions.len() > isize::MAX {
            Err((4u32, 0u32, 0u32, "program too large"@))
        } else if DATA_BASE + p.data.len() > MEM_SIZE {
            Err(stage_error(4, access_fault(DATA_BASE, p.data.len() as u64, true, 0)))
        } else {
            Ok((loaded(p, false, MAX_STEPS), p))
        },
    }
}

/// The bytes that a runtime error adds to the error output: a line with the error after
/// `[runtime error] `.
pub open spec fn runtime_note(f: Fault) -> Seq<u8> {
    encode_utf8("[runtime error] "@ + fault_text(f) + "\n"@)
}

/// The registers and flags as plain values.
pub struct WasmRegisters {
    pub rax: u64,
    pub rbx: u64,
    pub rcx: u64,
    pub rdx: u64,
    pub rsi: u64,
    pub rdi: u64,
    pub rsp: u64,
    pub rbp: u64,
    pub r8: u64,
    pub r9: u64,
    pub r10: u64,
    pub r11: u64,
    pub r12: u64,
    pub r13: u64,
    pub r14: u64,
    pub r15: u64,
    pub rip: u64,
    pub cf: bool,
    pub zf: bool,
    pub sf: bool,
    pub of: bool,
    pub pf: bool,
}

/// The registers and flags of a register file.
pub open spec fn snapshot(r: RegsV) -> WasmRegisters {
    WasmRegisters {
        rax: r.gpr[0],
        rbx: r.gpr[1],
        rcx: r.gpr[2],
        rdx: r.gpr[3],
        rsi: r.gpr[4],
        rdi: r.gpr[5],
        rsp: r.gpr[6],
        rbp: r.gpr[7],
        r8: r.gpr[8],
        r9: r.gpr[9],
        r10: r.gpr[10],
        r11: r.gpr[11],
        r12: r.gpr[12],
        r13: r.gpr[13],
        r14: r.gpr[14],
        r15: r.gpr[15],
        rip: r.rip,
        cf: r.flags.cf,
        zf: r.flags.zf,
        sf: r.flags.sf,
        of: r.flags.of,
        pf: r.flags.pf,
    }
}

/// A register file of zeros with all flags clear.
pub open spec fn zero_regs() -> RegsV {
    RegsV { gpr: Seq::new(16, |i: int| 0u64), rip: 0, flags: clear_flags() }
}

impl Default for WasmRegisters {
    /// All registers zero and all flags clear.
    fn default() -> (r: WasmRegisters)
        ensures r == snapshot(zero_regs()),
    {
        WasmRegisters {
            rax: 0,
            rbx: 0,
            rcx: 0,
            rdx: 0,
            rsi: 0,
            rdi: 0,
            rsp: 0,
            rbp: 0,
            r8: 0,
            r9: 0,
            r10: 0,
            r11: 0,
            r12: 0,
            r13: 0,
            r14: 0,
            r15: 0,
            rip: 0,
            cf: false,
            zf: false,
            sf: false,
            of: false,
            pf: false,
        }
    }
}

/// The register dump of a simulator: twelve registers on three lines, then the instruction
/// pointer and the flags, then the step count and whether the program has halted.
pub open spec fn sim_dump(c: CpuV) -> Seq<char> {
    let g = c.regs.gpr;
    "rax="@ + hex16(g[0]) + " rbx="@ + hex16(g[1]) + " rcx="@ + hex16(g[2]) + " rdx="@ + hex16(g[3])
        + "\nrsi="@ + hex16(g[4]) + " rdi="@ + hex16(g[5]) + " rsp="@ + hex16(g[6]) + " rbp="@ + hex16(g[7])
        + "\nr8="@ + hex16(g[8]) + " r9="@ + hex16(g[9]) + " r10="@ + hex16(g[10]) + " r11="@ + hex16(g[11])
        + "\nrip="@ + hex16(c.regs.rip) + "  CF="@ + flag_digit(c.regs.flags.cf) + " ZF="@
        + flag_digit(c.regs.flags.zf) + " SF="@ + flag_digit(c.regs.flags.sf) + " OF="@
        + flag_digit(c.regs.flags.of) + " PF="@ + flag_digit(c.regs.flags.pf) + "\nsteps="@
        + decimal_digits(c.steps as nat) + " halted="@ + (if c.halted { "true"@ } else { "false"@ })
}

/// The bytes of `mem` from `addr` on: `len` of them, or fewer where memory ends first.
pub open spec fn readable(mem: Seq<u8>, addr: int, len: int) -> Seq<u8> {
    if addr >= MEM_SIZE {
        Seq::empty()
    } else if addr + len <= MEM_SIZE {
        mem.subrange(addr, addr + len)
    } else {
        mem.subrange(addr, MEM_SIZE as int)
    }
}

/// A simulator as its contracts state it.
pub struct SimulatorV {
    /// The processor and its program, when the source assembled and loaded.
    pub machine: Option<(CpuV, ProgramV)>,
    /// The message of the error that stopped building, if one did.
    pub error: Option<Seq<char>>,
    pub error_kind: u32,
    pub error_line: u32,
    pub error_col: u32,
    /// Source lines that stop a run before their instruction.
    pub breakpoints: Set<usize>,
    /// Whether the last step stopped before a breakpoint line.
    pub at_breakpoint: bool,
}

/// The code a step returns and the simulator after it. With no program: 1, nothing changes.
/// Otherwise the processor steps and the code is 1 once it halts, 2 when the instruction it
/// stops before lies on a breakpoint line, else 0; a runtime error goes to the error output
/// and halts.
pub open spec fn sim_next(s: SimulatorV) -> (u32, SimulatorV) {
    match s.machine {
        None => (1u32, s),
        Some((c, p)) => {
            let (o, c2) = step_spec(c, p, debug_text(c, p));
            let (code, c3) = match o {
                Ok(true) => (1u32, c2),
                Ok(false) => if s.breakpoints.contains(source_line(c2, p)) { (2u32, c2) } else { (0u32, c2) },
                Err(f) => (1u32, CpuV { halted: true, stderr: c2.stderr + runtime_note(f), ..c2 }),
            };
            (code, SimulatorV { machine: Some((c3, p)), at_breakpoint: code == 2, ..s })
        },
    }
}

/// The states a run goes through: every step but the last returns 0, the last one returns
/// `code`, which is not 0.
pub open spec fn is_sim_run(trace: Seq<SimulatorV>, code: u32) -> bool {
    &&& trace.len() >= 2
    &&& code != 0
    &&& forall|i: int| 0 <= i < trace.len() - 2 ==> #[trigger] sim_next(trace[i]) == (0u32, trace[i + 1])
    &&& sim_next(trace[trace.len() - 2]) == (code, trace[trace.len() - 1])
}

/// Stepping a halted program is a no-op: the step returns 1 and changes nothing but
/// leaving the breakpoint.
pub proof fn law_step_after_halt(s: SimulatorV)
    requires
        s.machine matches Some((c, _)) && c.halted,
    ensures
        sim_next(s) == (1u32, SimulatorV { at_breakpoint: false, ..s }),
{
}

/// Breakpoints only pause a run: the processor after a step is the same whatever lines
/// carry breakpoints.
pub proof fn law_breakpoints_only_pause(s: SimulatorV, bps: Set<usize>)
    ensures
        sim_next(s).1.machine == sim_next(SimulatorV { breakpoints: bps, ..s }).1.machine,
        sim_next(s).0 == 1 <==> sim_next(SimulatorV { breakpoints: bps, ..s }).0 == 1,
{
}

/// Output that was taken is gone: taking it again right after gives empty text.
pub proof fn law_taken_output_is_empty(c: CpuV)
    ensures
        valid_utf8(CpuV { stdout: Seq::empty(), ..c }.stdout),
        decode_utf8(CpuV { stdout: Seq::empty(), ..c }.stdout) == Seq::<char>::empty(),
        valid_utf8(CpuV { stderr: Seq::empty(), ..c }.stderr),
        decode_utf8(CpuV { stderr: Seq::empty(), ..c }.stderr) == Seq::<char>::empty(),
{
}

/// The processor of a simulator stays within the step limit and halts once it reaches it.
pub open spec fn within_limit(c: CpuV) -> bool {
    &&& c.max_steps == MAX_STEPS
    &&& c.steps <= c.max_steps
    &&& !c.halted ==> c.steps < c.max_steps
}

/// How many more instructions may run.
spec fn steps_left(s: SimulatorV) -> int {
    match s.machine {
        Some((c, _)) => step_budget(c),
        None => 0,
    }
}

/// How many lines lie ahead of the instruction pointer.
spec fn lines_left(s: SimulatorV) -> int {
    match s.machine {
        Some((c, p)) => line_budget(c, p),
        None => 0,
    }
}

pub struct Simulator {
    cpu: Option<Cpu>,
    init_error: Option<String>,
    err_kind: u32,
    err_line: u32,
    err_col: u32,
    breakpoints: HashSet<usize>,
    at_breakpoint: bool,
}

impl View for Simulator {
    type V = SimulatorV;

    closed spec fn view(&self) -> SimulatorV {
        SimulatorV {
            machine: match self.cpu {
                Some(c) => Some((c@, c.prog@)),
                None => None,
            },
            error: match self.init_error {
                Some(m) => Some(m@),
                None => None,
            },
            error_kind: self.err_kind,
            error_line: self.err_line,
            error_col: self.err_col,
            breakpoints: self.breakpoints@,
            at_breakpoint: self.at_breakpoint,
        }
    }
}

/// The error of `e` met at the stage `kind`, as a simulator reports it.
fn stage(kind: u32, e: SimError) -> (r: (u32, u32, u32, String))
    ensures
        (r.0, r.1, r.2, r.3@) == stage_error(kind, e@),
{
    match e {
        SimError::Lex { line, col, msg } if kind == 1 => (1, line as u32, col as u32, msg),
        SimError::Parse { line, msg } if kind == 2 => (2, line as u32, 0, msg),
        SimError::Assemble { msg } if kind == 3 => (3, 0, 0, msg),
        e => (kind, 0, 0, e.to_string()),
    }
}

/// Lexes, parses, assembles and loads a source.
fn build(source: &str) -> (r: Result<Cpu, (u32, u32, u32, String)>)
    requires source.spec_bytes().len() < usize::MAX,
    ensures
        match built(source.spec_bytes()) {
            Ok((c, p)) => r matches Ok(cpu) && cpu@ == c && cpu.prog@ == p && cpu.wf(),
            Err(e) => r matches Err(x) && (x.0, x.1, x.2, x.3@) == e,
        },
{
    let mut lexer = Lexer::new(source);
    let tokens = match lexer.tokenize() {
        Ok(t) => t,
        Err(e) => return Err(stage(1, e)),
    };
    proof { law_tokens_end_with_eof(source.spec_bytes(), Cursor { pos: 0, line: 1, col: 1 }); }
    let mut parser = Parser::new(tokens);
    let lines = match parser.parse() {
        Ok(l) => l,
        Err(e) => return Err(stage(2, e)),
    };
    let prog = match Assembler::new(lines).assemble() {
        Ok(p) => p,
        Err(e) => return Err(stage(3, e)),
    };
    if prog.instructions.len() > isize::MAX as usize {
        return Err((4, 0, 0, owned("program too large")));
    }
    match Cpu::new(prog, false, MAX_STEPS) {
        Ok(c) => Ok(c),
        Err(e) => Err(stage(4, e)),
    }
}

impl Simulator {
    /// The processor, when there is one, is well formed and within the step limit.
    #[verifier::type_invariant]
    spec fn inv(self) -> bool {
        match self.cpu {
            Some(c) => c.wf() && within_limit(c@),
            None => true,
        }
    }

    /// Assembles and loads `source`; on failure keeps the error, with no program to run.
    pub fn new(source: &str) -> (s: Simulator)
        requires source.spec_bytes().len() < usize::MAX,
        ensures
            s@.breakpoints == Set::<usize>::empty(),
            !s@.at_breakpoint,
            match built(source.spec_bytes()) {
                Ok(m) => s@.machine == Some(m) && s@.error is None && s@.error_kind == 0 && s@.error_line == 0
                    && s@.error_col == 0,
                Err((kind, line, col, msg)) => s@.machine is None && s@.error == Some(msg) && s@.error_kind == kind
                    && s@.error_line == line && s@.error_col == col,
            },
    {
        match build(source) {
            Ok(cpu) => Simulator {
                cpu: Some(cpu),
                init_error: None,
                err_kind: 0,
                err_line: 0,
                err_col: 0,
                breakpoints: HashSet::new(),
                at_breakpoint: false,
            },
            Err((kind, line, col, msg)) => Simulator {
                cpu: None,
                init_error: Some(msg),
                err_kind: kind,
                err_line: line,
                err_col: col,
                breakpoints: HashSet::new(),
                at_breakpoint: false,
            },
        }
    }

    /// The message of the error that stopped building, if one did.
    pub fn error(&self) -> (r: Option<String>)
        ensures
            match r {
                Some(m) => self@.error == Some(m@),
                None => self@.error is None,
            },
    {
        match &self.init_error {
            Some(m) => Some(m.clone()),
            None => None,
        }
    }

    /// The kind of the build error: 0 none, 1 lex, 2 parse, 3 assemble, 4 load.
    pub fn error_kind(&self) -> (r: u32)
        ensures r == self@.error_kind,
    {
        self.err_kind
    }

    /// The source line of the build error (from 1), or 0.
    pub fn error_line(&self) -> (r: u32)
        ensures r == self@.error_line,
    {
        self.err_line
    }

    /// The column of the build error (from 1), or 0.
    pub fn error_col(&self) -> (r: u32)
        ensures r == self@.error_col,
    {
        self.err_col
    }

    /// Whether the program has halted; with no program, true.
    pub fn is_halted(&self) -> (r: bool)
        ensures
            r == match self@.machine {
                Some((c, _)) => c.halted,
                None => true,
            },
    {
        match &self.cpu {
            Some(c) => c.halted,
            None => true,
        }
    }

    /// Whether the last step stopped before a breakpoint line.
    pub fn is_at_breakpoint(&self) -> (r: bool)
        ensures r == self@.at_breakpoint,
    {
        self.at_breakpoint
    }

    /// The exit code that the program's exit system call set; 0 with no program.
    pub fn exit_code(&self) -> (r: i32)
        ensures
            r == match self@.machine {
                Some((c, _)) => c.exit_code,
                None => 0,
            },
    {
        match &self.cpu {
            Some(c) => c.exit_code,
            None => 0,
        }
    }

    /// Executes one instruction. Returns 0 while running, 1 once halted, 2 when the next
    /// instruction lies on a breakpoint line. A runtime error is written to the error output
    /// and halts.
    pub fn step(&mut self) -> (r: u32)
        ensures
            (r, final(self)@) == sim_next(old(self)@),
    {
        proof { use_type_invariant(&*self); }
        let mut slot: Option<Cpu> = None;
        std::mem::swap(&mut slot, &mut self.cpu);
        let mut cpu = match slot {
            Some(c) => c,
            None => return 1,
        };
        self.at_breakpoint = false;
        let code: u32 = match cpu.step() {
            Ok(true) => 1,
            Ok(false) => {
                if self.breakpoints.contains(&cpu.current_source_line()) {
                    self.at_breakpoint = true;
                    2
                } else {
                    0
                }
            },
            Err(e) => {
                let note = concat3("[runtime error] ", e.to_string().as_str(), "\n");
                append_bytes(&mut cpu.stderr, note.as_str().as_bytes());
                cpu.halted = true;
                1
            },
        };
        self.cpu = Some(cpu);
        code
    }

    /// Runs to the end or to a breakpoint. Returns 1 once halted, 2 at a breakpoint.
    pub fn run(&mut self) -> (r: u32)
        ensures
            exists|trace: Seq<SimulatorV>| #[trigger] is_sim_run(trace, r) && trace[0] == old(self)@
                && trace.last() == final(self)@,
    {
        let ghost mut trace: Seq<SimulatorV> = seq![self@];
        loop
            invariant
                trace.len() >= 1,
                trace[0] == old(self)@,
                trace.last() == self@,
                forall|i: int| 0 <= i < trace.len() - 1 ==> #[trigger] sim_next(trace[i]) == (0u32, trace[i + 1]),
            decreases steps_left(self@), lines_left(self@),
        {
            proof { use_type_invariant(&*self); }
            let ghost before = self@;
            let code = self.step();
            proof {
                trace = trace.push(self@);
            }
            if code != 0 {
                assert(is_sim_run(trace, code));
                return code;
            }
            proof {
                let (c, p) = before.machine.unwrap();
                let (o, c2) = step_spec(c, p, debug_text(c, p));
                lemma_step_progress(c, p, debug_text(c, p), c2);
            }
        }
    }

    /// The source line (from 1) of the instruction at the instruction pointer; 0 when
    /// halted, when no instruction is there, or with no program.
    pub fn current_source_line(&self) -> (r: u32)
        ensures
            r == match self@.machine {
                Some((c, p)) => source_line(c, p) as u32,
                None => 0,
            },
    {
        match &self.cpu {
            Some(c) => c.current_source_line() as u32,
            None => 0,
        }
    }

    /// Sets a breakpoint on a source line (from 1).
    pub fn set_breakpoint(&mut self, line: u32)
        ensures final(self)@ == (SimulatorV { breakpoints: old(self)@.breakpoints.insert(line as usize), ..old(self)@ }),
    {
        proof { use_type_invariant(&*self); }
        let mut set: HashSet<usize> = HashSet::new();
        std::mem::swap(&mut set, &mut self.breakpoints);
        set.insert(line as usize);
        self.breakpoints = set;
    }

    /// Clears the breakpoint on a source line.
    pub fn clear_breakpoint(&mut self, line: u32)
        ensures final(self)@ == (SimulatorV { breakpoints: old(self)@.breakpoints.remove(line as usize), ..old(self)@ }),
    {
        proof { use_type_invariant(&*self); }
        let mut set: HashSet<usize> = HashSet::new();
        std::mem::swap(&mut set, &mut self.breakpoints);
        let key: usize = line as usize;
        set.remove(&key);
        self.breakpoints = set;
    }

    /// Clears all breakpoints.
    pub fn clear_breakpoints(&mut self)
        ensures final(self)@ == (SimulatorV { breakpoints: Set::empty(), ..old(self)@ }),
    {
        proof { use_type_invariant(&*self); }
        self.breakpoints = HashSet::new();
    }

    /// Takes the standard output produced since the last call, as text.
    pub fn take_stdout(&mut self) -> (s: String)
        ensures
            match old(self)@.machine {
                Some((c, p)) => {
                    &&& s@ == utf8_lossy(c.stdout)
                    &&& valid_utf8(c.stdout) ==> s@ == decode_utf8(c.stdout)
                    &&& final(self)@ == (SimulatorV { machine: Some((CpuV { stdout: Seq::empty(), ..c }, p)), ..old(self)@ })
                },
                None => s@ == Seq::<char>::empty() && final(self)@ == old(self)@,
            },
    {
        proof { use_type_invariant(&*self); }
        let mut slot: Option<Cpu> = None;
        std::mem::swap(&mut slot, &mut self.cpu);
        match slot {
            Some(mut c) => {
                let bytes = c.take_stdout();
                self.cpu = Some(c);
                lossy_text(bytes.as_slice())
            },
            None => String::new(),
        }
    }

    /// Takes the error output produced since the last call, as text.
    pub fn take_stderr(&mut self) -> (s: String)
        ensures
            match old(self)@.machine {
                Some((c, p)) => {
                    &&& s@ == utf8_lossy(c.stderr)
                    &&& valid_utf8(c.stderr) ==> s@ == decode_utf8(c.stderr)
                    &&& final(self)@ == (SimulatorV { machine: Some((CpuV { stderr: Seq::empty(), ..c }, p)), ..old(self)@ })
                },
                None => s@ == Seq::<char>::empty() && final(self)@ == old(self)@,
            },
    {
        proof { use_type_invariant(&*self); }
        let mut slot: Option<Cpu> = None;
        std::mem::swap(&mut slot, &mut self.cpu);
        match slot {
            Some(mut c) => {
                let bytes = c.take_stderr();
                self.cpu = Some(c);
                lossy_text(bytes.as_slice())
            },
            None => String::new(),
        }
    }

    /// Supplies bytes for the read system call.
    pub fn feed_stdin(&mut self, data: &[u8])
        ensures
            final(self)@ == match old(self)@.machine {
                Some((c, p)) => SimulatorV { machine: Some((CpuV { stdin: c.stdin + data@, ..c }, p)), ..old(self)@ },
                None => old(self)@,
            },
    {
        proof { use_type_invariant(&*self); }
        let mut slot: Option<Cpu> = None;
        std::mem::swap(&mut slot, &mut self.cpu);
        match slot {
            Some(mut c) => {
                append_bytes(&mut c.stdin, data);
                self.cpu = Some(c);
            },
            None => {},
        }
    }

    /// The registers, flags, step count and halt state as text; empty with no program.
    pub fn dump_regs(&self) -> (s: String)
        ensures
            s@ == match self@.machine {
                Some((c, _)) => sim_dump(c),
                None => Seq::empty(),
            },
    {
        let cpu = match &self.cpu {
            Some(c) => c,
            None => return String::new(),
        };
        let r = &cpu.regs;
        let mut s = owned("rax=");
        s.append(hex_padded(r.gpr[0]).as_str());
        s.append(" rbx=");
        s.append(hex_padded(r.gpr[1]).as_str());
        s.append(" rcx=");
        s.append(hex_padded(r.gpr[2]).as_str());
        s.append(" rdx=");
        s.append(hex_padded(r.gpr[3]).as_str());
        s.append("\nrsi=");
        s.append(hex_padded(r.gpr[4]).as_str());
        s.append(" rdi=");
        s.append(hex_padded(r.gpr[5]).as_str());
        s.append(" rsp=");
        s.append(hex_padded(r.gpr[6]).as_str());
        s.append(" rbp=");
        s.append(hex_padded(r.gpr[7]).as_str());
        s.append("\nr8=");
        s.append(hex_padded(r.gpr[8]).as_str());
        s.append(" r9=");
        s.append(hex_padded(r.gpr[9]).as_str());
        s.append(" r10=");
        s.append(hex_padded(r.gpr[10]).as_str());
        s.append(" r11=");
        s.append(hex_padded(r.gpr[11]).as_str());
        s.append("\nrip=");
        s.append(hex_padded(r.rip).as_str());
        s.append("  CF=");
        s.append(if r.flags.cf { "1" } else { "0" });
        s.append(" ZF=");
        s.append(if r.flags.zf { "1" } else { "0" });
        s.append(" SF=");
        s.append(if r.flags.sf { "1" } else { "0" });
        s.append(" OF=");
        s.append(if r.flags.of { "1" } else { "0" });
        s.append(" PF=");
        s.append(if r.flags.pf { "1" } else { "0" });
        s.append("\nsteps=");
        s.append(decimal(cpu.steps).as_str());
        s.append(" halted=");
        s.append(if cpu.halted { "true" } else { "false" });
        s
    }

    /// The number of instructions executed so far; 0 with no program.
    pub fn steps(&self) -> (r: u64)
        ensures
            r == match self@.machine {
                Some((c, _)) => c.steps,
                None => 0,
            },
    {
        match &self.cpu {
            Some(c) => c.steps,
            None => 0,
        }
    }

    /// The registers and flags; all zero with no program.
    pub fn regs(&self) -> (r: WasmRegisters)
        ensures
            r == match self@.machine {
                Some((c, _)) => snapshot(c.regs),
                None => snapshot(zero_regs()),
            },
    {
        let c = match &self.cpu {
            Some(c) => c,
            None => return WasmRegisters::default(),
        };
        let r = &c.regs;
        WasmRegisters {
            rax: r.gpr[0],
            rbx: r.gpr[1],
            rcx: r.gpr[2],
            rdx: r.gpr[3],
            rsi: r.gpr[4],
            rdi: r.gpr[5],
            rsp: r.gpr[6],
            rbp: r.gpr[7],
            r8: r.gpr[8],
            r9: r.gpr[9],
            r10: r.gpr[10],
            r11: r.gpr[11],
            r12: r.gpr[12],
            r13: r.gpr[13],
            r14: r.gpr[14],
            r15: r.gpr[15],
            rip: r.rip,
            cf: r.flags.cf,
            zf: r.flags.zf,
            sf: r.flags.sf,
            of: r.flags.of,
            pf: r.flags.pf,
        }
    }

    /// The bytes of memory from `addr` on: `len` of them, or fewer where memory ends first;
    /// none with no program.
    pub fn read_mem(&self, addr: u32, len: u32) -> (r: Vec<u8>)
        ensures
            r@ == match self@.machine {
                Some((c, _)) => readable(c.mem, addr as int, len as int),
                None => Seq::empty(),
            },
    {
        proof { use_type_invariant(self); }
        let cpu = match &self.cpu {
            Some(c) => c,
            None => return Vec::new(),
        };
        let ghost mem = cpu.mem.data@;
        let mut out: Vec<u8> = Vec::with_capacity(len as usize);
        let mut i: u64 = 0;
        while i < len as u64
            invariant
                cpu.mem.wf(),
                mem == cpu.mem.data@,
                i <= len,
                addr < MEM_SIZE ==> addr + i <= MEM_SIZE && out@ == mem.subrange(addr as int, addr + i),
                addr >= MEM_SIZE ==> i == 0 && out@ == Seq::<u8>::empty(),
            ensures
                out@ == readable(mem, addr as int, len as int),
            decreases len - i,
        {
            match cpu.mem.read_u8(addr as u64 + i, TEXT_BASE) {
                Ok(b) => {
                    proof {
                        reveal_with_fuel(le_value, 2);
                    }
                    out.push(b);
                    assert(out@ =~= mem.subrange(addr as int, addr + i + 1));
                },
                Err(_) => {
                    break;
                },
            }
            i = i + 1;
        }
        out
    }
}

} // verus!
