//! Laying out assembly lines: symbol addresses, the data segment and the instruction list.
use vstd::prelude::*;
use vstd::hash_map::StringHashMap;
use crate::ast::{AsmLine, AsmLineV, Directive, DirectiveV, Instruction, MemAddr, Operand, OperandV, directive_view, lines_view};
use crate::cpu::memory::le_bytes;
use crate::error::{Fault, SimError};
use crate::names::same_text;
use crate::program::{Program, ProgramV, DATA_BASE, TEXT_BASE};
use crate::text::{decimal_digits, concat3, concat4, decimal};

verus! {

/// The words `vs`, each as `n` little-endian bytes, one after another.
pub open spec fn words_bytes(vs: Seq<u64>, n: nat) -> Seq<u8>
    decreases vs.len(),
{
    if vs.len() == 0 { Seq::empty() } else { words_bytes(vs.drop_last(), n) + le_bytes(vs.last(), n) }
}

/// `bs` repeated `count` times.
pub open spec fn repeat_bytes(bs: Seq<u8>, count: nat) -> Seq<u8>
    decreases count,
{
    if count == 0 { Seq::empty() } else { repeat_bytes(bs, (count - 1) as nat) + bs }
}

/// The bytes a directive puts into the data segment.
pub open spec fn data_bytes(d: DirectiveV) -> Seq<u8>
    decreases d,
{
    match d {
        DirectiveV::Db(bs) => bs,
        DirectiveV::Dw(ws) => words_bytes(ws.map_values(|w: u16| w as u64), 2),
        DirectiveV::Dd(ws) => words_bytes(ws.map_values(|w: u32| w as u64), 4),
        DirectiveV::Dq(ws) => words_bytes(ws, 8),
        DirectiveV::Times { count, inner } => repeat_bytes(data_bytes(*inner), count as nat),
        _ => Seq::empty(),
    }
}

/// What the first pass has gathered: symbols, data, instructions, the current section and
/// the address of `_start`.
pub struct Layout {
    pub symbols: Map<Seq<char>, i64>,
    pub data: Seq<u8>,
    pub instructions: Seq<AsmLineV>,
    pub in_data: bool,
    pub entry: Option<u64>,
}

/// The address a label gets: the end of the data so far in the data section, else the
/// address of the next instruction.
pub open spec fn label_address(st: Layout) -> i64 {
    if st.in_data {
        DATA_BASE.wrapping_add(st.data.len() as u64) as i64
    } else {
        TEXT_BASE.wrapping_add(st.instructions.len() as u64) as i64
    }
}

/// The first pass over one line. A section named `.data` or `data` switches to data, any
/// other to text; a constant is recorded; a label gets its address, and defining a name
/// twice is an error; data directives in the data section add their bytes; instructions
/// are collected; anything else is ignored.
pub open spec fn layout_step(st: Layout, l: AsmLineV) -> Result<Layout, Fault> {
    match l {
        AsmLineV::Directive(DirectiveV::Section(name)) => Ok(Layout { in_data: name == ".data"@ || name == "data"@, ..st }),
        AsmLineV::Directive(DirectiveV::Global(_)) => Ok(st),
        AsmLineV::Directive(DirectiveV::Equ(name, v)) => Ok(Layout { symbols: st.symbols.insert(name, v), ..st }),
        AsmLineV::Label(name) => if st.symbols.contains_key(name) {
            Err(Fault::Assemble { msg: "duplicate label '"@ + name + "'"@ })
        } else {
            let addr = label_address(st);
            Ok(Layout {
                symbols: st.symbols.insert(name, addr),
                entry: if name == "_start"@ { Some(addr as u64) } else { st.entry },
                ..st
            })
        },
        AsmLineV::Directive(d) => if st.in_data { Ok(Layout { data: st.data + data_bytes(d), ..st }) } else { Ok(st) },
        AsmLineV::Instruction(_) => Ok(Layout { instructions: st.instructions.push(l), ..st }),
    }
}

/// The first pass over `lines`, in order, from an empty layout in the text section.
pub open spec fn layout(lines: Seq<AsmLineV>) -> Result<Layout, Fault>
    decreases lines.len(),
{
    if lines.len() == 0 {
        Ok(Layout { symbols: Map::empty(), data: Seq::empty(), instructions: Seq::empty(), in_data: false, entry: None })
    } else {
        match layout(lines.drop_last()) {
            Ok(st) => layout_step(st, lines.last()),
            Err(f) => Err(f),
        }
    }
}

/// The symbol an operand refers to, if any.
pub open spec fn operand_symbol(o: OperandV) -> Option<Seq<char>> {
    match o {
        OperandV::Label(n) => Some(n),
        OperandV::Memory(m) => m.label,
        _ => None,
    }
}

/// Every symbol that an instruction among `ins` refers to is defined in `syms`.
pub open spec fn symbols_defined(ins: Seq<AsmLineV>, syms: Map<Seq<char>, i64>) -> bool {
    forall|i: int, j: int|
        0 <= i < ins.len() && ins[i] is Instruction && 0 <= j < ins[i]->Instruction_0.operands.len()
            ==> (operand_symbol(#[trigger] ins[i]->Instruction_0.operands[j]) matches Some(n) ==> syms.contains_key(n))
}

/// The first symbol among the operands `ops` that `syms` does not define.
pub open spec fn undefined_operand(ops: Seq<OperandV>, syms: Map<Seq<char>, i64>) -> Option<Seq<char>>
    decreases ops.len(),
{
    if ops.len() == 0 {
        None
    } else {
        match operand_symbol(ops[0]) {
            Some(n) => if syms.contains_key(n) { undefined_operand(ops.drop_first(), syms) } else { Some(n) },
            None => undefined_operand(ops.drop_first(), syms),
        }
    }
}

/// The first undefined symbol that an instruction among `ins` refers to, with the
/// instruction's line.
pub open spec fn first_undefined(ins: Seq<AsmLineV>, syms: Map<Seq<char>, i64>) -> Option<(Seq<char>, usize)>
    decreases ins.len(),
{
    if ins.len() == 0 {
        None
    } else {
        match ins[0] {
            AsmLineV::Instruction(i) => match undefined_operand(i.operands, syms) {
                Some(n) => Some((n, i.line)),
                None => first_undefined(ins.drop_first(), syms),
            },
            _ => first_undefined(ins.drop_first(), syms),
        }
    }
}

/// The program that `lines` assemble to: the layout's instructions, symbols and data,
/// entered at `_start` or else at the first instruction. A symbol that an instruction refers
/// to but nothing defines is an error, reported for the first such reference.
pub open spec fn assemble_lines(lines: Seq<AsmLineV>) -> Result<ProgramV, Fault> {
    match layout(lines) {
        Ok(st) => match first_undefined(st.instructions, st.symbols) {
            Some((n, line)) => Err(Fault::Assemble {
                msg: "undefined symbol '"@ + n + "' at line "@ + decimal_digits(line as nat),
            }),
            None => Ok(ProgramV {
                instructions: st.instructions,
                symbols: st.symbols,
                data: st.data,
                entry: match st.entry {
                    Some(e) => e,
                    None => TEXT_BASE,
                },
            }),
        },
        Err(f) => Err(f),
    }
}

/// Appends the low `n` bytes of `v`, least significant first.
fn push_le(out: &mut Vec<u8>, v: u64, n: usize)
    requires n <= 8,
    ensures final(out)@ == old(out)@ + le_bytes(v, n as nat),
{
    let mut k: usize = 0;
    while k < n
        invariant
            k <= n <= 8,
            out@ == old(out)@ + le_bytes(v, k as nat),
        decreases n - k,
    {
        let b = #[verifier::truncate] (((v >> (8 * k) as u64) & 0xFF) as u8);
        out.push(b);
        assert(le_bytes(v, k as nat).push(b) =~= le_bytes(v, (k + 1) as nat));
        assert(old(out)@ + le_bytes(v, k as nat).push(b) =~= old(out)@ + le_bytes(v, k as nat) + seq![b]);
        k = k + 1;
    }
}

/// Appends the bytes a data directive stands for; other directives add nothing.
fn emit_data(d: &Directive, out: &mut Vec<u8>) -> (r: Result<(), SimError>)
    ensures
        r is Ok,
        final(out)@ == old(out)@ + data_bytes(d@),
    decreases d,
{
    match d {
        Directive::Db(bytes) => {
            let mut i: usize = 0;
            while i < bytes.len()
                invariant
                    i <= bytes@.len(),
                    out@ == old(out)@ + bytes@.take(i as int),
                decreases bytes@.len() - i,
            {
                out.push(bytes[i]);
                assert(bytes@.take(i + 1) =~= bytes@.take(i as int).push(bytes@[i as int]));
                i = i + 1;
            }
            assert(bytes@.take(bytes@.len() as int) =~= bytes@);
        },
        Directive::Dw(words) => {
            let ghost ws = words@.map_values(|w: u16| w as u64);
            let mut i: usize = 0;
            while i < words.len()
                invariant
                    i <= words@.len(),
                    ws == words@.map_values(|w: u16| w as u64),
                    out@ == old(out)@ + words_bytes(ws.take(i as int), 2),
                decreases words@.len() - i,
            {
                push_le(out, words[i] as u64, 2);
                assert(ws.take(i + 1).drop_last() =~= ws.take(i as int));
                i = i + 1;
            }
            assert(ws.take(words@.len() as int) =~= ws);
        },
        Directive::Dd(words) => {
            let ghost ws = words@.map_values(|w: u32| w as u64);
            let mut i: usize = 0;
            while i < words.len()
                invariant
                    i <= words@.len(),
                    ws == words@.map_values(|w: u32| w as u64),
                    out@ == old(out)@ + words_bytes(ws.take(i as int), 4),
                decreases words@.len() - i,
            {
                push_le(out, words[i] as u64, 4);
                assert(ws.take(i + 1).drop_last() =~= ws.take(i as int));
                i = i + 1;
            }
            assert(ws.take(words@.len() as int) =~= ws);
        },
        Directive::Dq(words) => {
            let mut i: usize = 0;
            while i < words.len()
                invariant
                    i <= words@.len(),
                    out@ == old(out)@ + words_bytes(words@.take(i as int), 8),
                decreases words@.len() - i,
            {
                push_le(out, words[i], 8);
                assert(words@.take(i + 1).drop_last() =~= words@.take(i as int));
                i = i + 1;
            }
            assert(words@.take(words@.len() as int) =~= words@);
        },
        Directive::Times { count, inner } => {
            let ghost once = data_bytes(directive_view(**inner));
            let mut k: usize = 0;
            while k < *count
                invariant
                    k <= *count,
                    *d == (Directive::Times { count: *count, inner: *inner }),
                    once == data_bytes(directive_view(**inner)),
                    out@ == old(out)@ + repeat_bytes(once, k as nat),
                decreases *count - k,
            {
                let ghost before = out@;
                proof {
                    assert(*d is Times);
                    assert(decreases_to!(*d => (*d)->inner));
                }
                let _ = emit_data(&**inner, out);
                assert(old(out)@ + repeat_bytes(once, (k + 1) as nat) =~= before + once);
                k = k + 1;
            }
        },
        _ => {
            assert(old(out)@ + Seq::<u8>::empty() =~= old(out)@);
        },
    }
    Ok(())
}

/// A copy of an operand.
fn copy_operand(o: &Operand) -> (r: Operand)
    ensures r@ == o@,
{
    match o {
        Operand::Register(reg) => Operand::Register(*reg),
        Operand::Immediate(n) => Operand::Immediate(*n),
        Operand::Memory(m) => {
            let label = match &m.label {
                Some(s) => Some(s.clone()),
                None => None,
            };
            Operand::Memory(MemAddr { size: m.size, base: m.base, index: m.index, scale: m.scale, disp: m.disp, label })
        },
        Operand::Label(s) => Operand::Label(s.clone()),
    }
}

/// A copy of an instruction.
fn copy_instruction(ins: &Instruction) -> (r: Instruction)
    ensures r@ == ins@,
{
    let mut operands: Vec<Operand> = Vec::new();
    let mut i: usize = 0;
    while i < ins.operands.len()
        invariant
            i <= ins.operands@.len(),
            operands@.len() == i,
            forall|j: int| 0 <= j < i ==> (#[trigger] operands@[j])@ == ins.operands@[j]@,
        decreases ins.operands@.len() - i,
    {
        operands.push(copy_operand(&ins.operands[i]));
        i = i + 1;
    }
    let r = Instruction { op: ins.op, operands, line: ins.line };
    assert(r@.operands =~= ins@.operands);
    r
}

pub struct Assembler {
    lines: Vec<AsmLine>,
}

impl Assembler {
    /// The lines to assemble.
    pub closed spec fn lines_v(&self) -> Seq<AsmLineV> {
        lines_view(self.lines@)
    }

    pub fn new(lines: Vec<AsmLine>) -> (a: Self)
        ensures a.lines_v() == lines_view(lines@),
    {
        Assembler { lines }
    }

    /// The program that the lines assemble to.
    pub fn assemble(self) -> (r: Result<Program, SimError>)
        ensures
            match assemble_lines(self.lines_v()) {
                Ok(p) => r matches Ok(prog) && prog@ == p,
                Err(f) => r matches Err(e) && e@ == f,
            },
    {
        let ghost lv = self.lines_v();
        let mut symbols: StringHashMap<i64> = StringHashMap::new();
        let mut data: Vec<u8> = Vec::new();
        let mut instructions: Vec<AsmLine> = Vec::new();
        let mut in_data = false;
        let mut entry: Option<u64> = None;
        let mut i: usize = 0;
        proof {
            assert(lv.take(0) =~= Seq::<AsmLineV>::empty());
            assert(lines_view(instructions@) =~= Seq::<AsmLineV>::empty());
        }
        while i < self.lines.len()
            invariant
                i <= self.lines@.len(),
                lv == lines_view(self.lines@),
                layout(lv.take(i as int)) == Ok::<Layout, Fault>(Layout {
                    symbols: symbols@,
                    data: data@,
                    instructions: lines_view(instructions@),
                    in_data,
                    entry,
                }),
            decreases self.lines@.len() - i,
        {
            let ghost st = Layout { symbols: symbols@, data: data@, instructions: lines_view(instructions@), in_data, entry };
            proof { assert(lv.take(i + 1).drop_last() =~= lv.take(i as int)); }
            match &self.lines[i] {
                AsmLine::Directive(Directive::Section(name)) => {
                    in_data = same_text(name.as_str(), ".data") || same_text(name.as_str(), "data");
                },
                AsmLine::Directive(Directive::Global(_)) => {},
                AsmLine::Directive(Directive::Equ(name, val)) => {
                    symbols.insert(name.clone(), *val);
                },
                AsmLine::Label(name) => {
                    let addr: i64 = if in_data {
                        #[verifier::truncate] (DATA_BASE.wrapping_add(data.len() as u64) as i64)
                    } else {
                        #[verifier::truncate] (TEXT_BASE.wrapping_add(instructions.len() as u64) as i64)
                    };
                    assert(addr == label_address(st));
                    if symbols.contains_key(name.as_str()) {
                        proof {
                            assert(lv[i as int] == AsmLineV::Label(name@));
                            assert(lv.take(i + 1).last() == lv[i as int]);
                            assert(layout(lv.take(i + 1)) == layout_step(st, lv[i as int]));
                            lemma_layout_error_stays(lv, i + 1);
                        }
                        return Err(SimError::Assemble { msg: concat3("duplicate label '", name.as_str(), "'") });
                    }
                    symbols.insert(name.clone(), addr);
                    if same_text(name.as_str(), "_start") {
                        entry = Some(#[verifier::truncate] (addr as u64));
                    }
                },
                AsmLine::Directive(d) => {
                    if in_data {
                        let _ = emit_data(d, &mut data);
                    }
                },
                AsmLine::Instruction(ins) => {
                    let ghost before = instructions@;
                    instructions.push(AsmLine::Instruction(copy_instruction(ins)));
                    assert(lines_view(instructions@) =~= lines_view(before).push(lv[i as int]));
                },
            }
            i = i + 1;
        }
        proof { assert(lv.take(self.lines@.len() as int) =~= lv); }
        let ghost ins = lines_view(instructions@);
        let ghost st = Layout { symbols: symbols@, data: data@, instructions: ins, in_data, entry };
        let mut k: usize = 0;
        proof { assert(ins.subrange(0, ins.len() as int) =~= ins); }
        while k < instructions.len()
            invariant
                k <= instructions@.len(),
                ins == lines_view(instructions@),
                lv == self.lines_v(),
                layout(lv) == Ok::<Layout, Fault>(st),
                st.symbols == symbols@,
                st.instructions == ins,
                first_undefined(ins, symbols@) == first_undefined(ins.subrange(k as int, ins.len() as int), symbols@),
            decreases instructions@.len() - k,
        {
            let ghost rest = ins.subrange(k as int, ins.len() as int);
            proof { assert(rest.drop_first() =~= ins.subrange(k + 1, ins.len() as int)); }
            if let AsmLine::Instruction(instr) = &instructions[k] {
                let ghost ops = instr@.operands;
                let mut j: usize = 0;
                proof { assert(ops.subrange(0, ops.len() as int) =~= ops); }
                while j < instr.operands.len()
                    invariant
                        k < instructions@.len(),
                        ins == lines_view(instructions@),
                        lv == self.lines_v(),
                        layout(lv) == Ok::<Layout, Fault>(st),
                        st.symbols == symbols@,
                        st.instructions == ins,
                        rest == ins.subrange(k as int, ins.len() as int),
                        first_undefined(ins, symbols@) == first_undefined(rest, symbols@),
                        rest[0] == AsmLineV::Instruction(instr@),
                        ops == instr@.operands,
                        j <= instr.operands@.len(),
                        undefined_operand(ops, symbols@) == undefined_operand(ops.subrange(j as int, ops.len() as int), symbols@),
                    decreases instr.operands@.len() - j,
                {
                    let ghost tail = ops.subrange(j as int, ops.len() as int);
                    proof { assert(tail.drop_first() =~= ops.subrange(j + 1, ops.len() as int)); }
                    let name: Option<&String> = match &instr.operands[j] {
                        Operand::Label(n) => Some(n),
                        Operand::Memory(m) => match &m.label {
                            Some(n) => Some(n),
                            None => None,
                        },
                        _ => None,
                    };
                    if let Some(n) = name {
                        if !symbols.contains_key(n.as_str()) {
                            let at = decimal(instr.line as u64);
                            return Err(SimError::Assemble {
                                msg: concat4("undefined symbol '", n.as_str(), "' at line ", at.as_str()),
                            });
                        }
                    }
                    j = j + 1;
                }
                proof { assert(ops.subrange(ops.len() as int, ops.len() as int) =~= Seq::<OperandV>::empty()); }
            }
            k = k + 1;
        }
        proof { assert(ins.subrange(ins.len() as int, ins.len() as int) =~= Seq::<AsmLineV>::empty()); }
        let entry = match entry {
            Some(e) => e,
            None => TEXT_BASE,
        };
        Ok(Program { instructions, symbols, data, entry })
    }
}

/// Once a prefix of the lines fails to lay out, so do all the lines.
pub proof fn lemma_layout_error_stays(lines: Seq<AsmLineV>, i: int)
    requires
        0 <= i <= lines.len(),
        layout(lines.take(i)) is Err,
    ensures
        layout(lines) == layout(lines.take(i)),
    decreases lines.len(),
{
    if i < lines.len() {
        assert(lines.drop_last().take(i) =~= lines.take(i));
        lemma_layout_error_stays(lines.drop_last(), i);
    } else {
        assert(lines.take(i) =~= lines);
    }
}

/// The first pass keeps only instruction lines.
pub proof fn lemma_layout_instructions(lines: Seq<AsmLineV>)
    ensures
        layout(lines) matches Ok(st) ==> forall|i: int| 0 <= i < st.instructions.len() ==> #[trigger] st.instructions[i] is Instruction,
    decreases lines.len(),
{
    if lines.len() > 0 {
        lemma_layout_instructions(lines.drop_last());
        if let Ok(st) = layout(lines.drop_last()) {
            if let Ok(st2) = layout_step(st, lines.last()) {
                assert forall|i: int| 0 <= i < st2.instructions.len() implies #[trigger] st2.instructions[i] is Instruction by {
                    if i < st.instructions.len() {
                        assert(st2.instructions[i] == st.instructions[i]);
                    }
                }
            }
        }
    }
}

/// An assembled program holds only instructions, and every symbol they refer to is defined.
pub proof fn law_assembled_program(lines: Seq<AsmLineV>)
    ensures
        assemble_lines(lines) matches Ok(p) ==> {
            &&& forall|i: int| 0 <= i < p.instructions.len() ==> #[trigger] p.instructions[i] is Instruction
            &&& symbols_defined(p.instructions, p.symbols)
        },
{
    lemma_layout_instructions(lines);
    if let Ok(st) = layout(lines) {
        lemma_first_undefined(st.instructions, st.symbols);
    }
}

/// No undefined symbol among the operands exactly when each of their symbols is defined.
pub proof fn lemma_undefined_operand(ops: Seq<OperandV>, syms: Map<Seq<char>, i64>)
    ensures
        (undefined_operand(ops, syms) is None) == (forall|j: int| 0 <= j < ops.len()
            ==> (operand_symbol(#[trigger] ops[j]) matches Some(n) ==> syms.contains_key(n))),
    decreases ops.len(),
{
    if ops.len() > 0 {
        let rest = ops.drop_first();
        lemma_undefined_operand(rest, syms);
        if undefined_operand(ops, syms) is None {
            assert forall|j: int| 0 <= j < ops.len() implies (operand_symbol(#[trigger] ops[j]) matches Some(n) ==> syms.contains_key(n)) by {
                if j > 0 {
                    assert(ops[j] == rest[j - 1]);
                }
            }
        } else if forall|j: int| 0 <= j < ops.len() ==> (operand_symbol(#[trigger] ops[j]) matches Some(n) ==> syms.contains_key(n)) {
            assert forall|j: int| 0 <= j < rest.len() implies (operand_symbol(#[trigger] rest[j]) matches Some(n) ==> syms.contains_key(n)) by {
                assert(rest[j] == ops[j + 1]);
            }
            assert(operand_symbol(ops[0]) matches Some(n) ==> syms.contains_key(n));
        }
    }
}

/// No first undefined reference exactly when every symbol the instructions refer to is
/// defined.
pub proof fn lemma_first_undefined(ins: Seq<AsmLineV>, syms: Map<Seq<char>, i64>)
    ensures (first_undefined(ins, syms) is None) == symbols_defined(ins, syms),
    decreases ins.len(),
{
    if ins.len() > 0 {
        let rest = ins.drop_first();
        lemma_first_undefined(rest, syms);
        if let AsmLineV::Instruction(i0) = ins[0] {
            lemma_undefined_operand(i0.operands, syms);
        }
        if first_undefined(ins, syms) is None {
            assert forall|i: int, j: int|
                0 <= i < ins.len() && ins[i] is Instruction && 0 <= j < ins[i]->Instruction_0.operands.len()
                    implies (operand_symbol(#[trigger] ins[i]->Instruction_0.operands[j]) matches Some(n) ==> syms.contains_key(n)) by {
                if i > 0 {
                    assert(ins[i] == rest[i - 1]);
                }
            }
        } else if symbols_defined(ins, syms) {
            assert forall|i: int, j: int|
                0 <= i < rest.len() && rest[i] is Instruction && 0 <= j < rest[i]->Instruction_0.operands.len()
                    implies (operand_symbol(#[trigger] rest[i]->Instruction_0.operands[j]) matches Some(n) ==> syms.contains_key(n)) by {
                assert(rest[i] == ins[i + 1]);
            }
            if let AsmLineV::Instruction(i0) = ins[0] {
                assert forall|j: int| 0 <= j < i0.operands.len()
                    implies (operand_symbol(#[trigger] i0.operands[j]) matches Some(n) ==> syms.contains_key(n)) by {
                    assert(ins[0]->Instruction_0.operands[j] == i0.operands[j]);
                }
            }
        }
    }
}

} // verus!
