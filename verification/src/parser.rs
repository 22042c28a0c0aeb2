//! Turning tokens into assembly lines: labels, instructions and directives.
use vstd::prelude::*;
use crate::ast::{
    AsmLine, AsmLineV, Directive, DirectiveV, directive_view, Instruction, InstructionV, MemAddr, MemAddrV,
    Operand, OperandV, RegRef, Size, lines_view,
};
use crate::error::{Fault, SimError};
use crate::lexer::{Token, TokenV, tokens_view};
use crate::names::{is_word, op_named, parse_op, parse_register, parse_size, register_named, size_named, spells};
use crate::show::{token_string, token_text};
use crate::text::{concat2, concat3, owned};

verus! {

/// Tokens that end with `Eof`, as the lexer makes them.
pub open spec fn ends_with_eof(ts: Seq<(TokenV, usize)>) -> bool {
    ts.len() > 0 && ts.last().0 is Eof
}

/// The token at `p`; `Eof` past the end.
pub open spec fn tok(ts: Seq<(TokenV, usize)>, p: int) -> TokenV {
    if 0 <= p < ts.len() { ts[p].0 } else { TokenV::Eof }
}

/// The line of the token at `p`.
pub open spec fn line_of(ts: Seq<(TokenV, usize)>, p: int) -> usize {
    if 0 <= p < ts.len() { ts[p].1 } else { 0 }
}

/// The position after `p`; the last token is never passed.
pub open spec fn next(ts: Seq<(TokenV, usize)>, p: int) -> int {
    if p + 1 < ts.len() { p + 1 } else { p }
}

/// Past any newline tokens.
pub open spec fn skip_newlines(ts: Seq<(TokenV, usize)>, p: int) -> int
    decreases ts.len() - p,
{
    if 0 <= p && p + 1 < ts.len() && tok(ts, p) is Newline { skip_newlines(ts, p + 1) } else { p }
}

/// An optional `byte`, `word`, `dword` or `qword` before an operand, with an optional `ptr`.
pub open spec fn size_prefix(ts: Seq<(TokenV, usize)>, p: int) -> (Option<Size>, int) {
    match tok(ts, p) {
        TokenV::Ident(s) => match size_named(s) {
            Some(sz) => {
                let q = next(ts, p);
                if tok(ts, q) matches TokenV::Ident(w) && spells(w, "ptr") {
                    (Some(sz), next(ts, q))
                } else {
                    (Some(sz), q)
                }
            },
            None => (None, p),
        },
        _ => (None, p),
    }
}

/// A memory operand before any of its terms.
pub open spec fn mem_start(size: Option<Size>) -> MemAddrV {
    MemAddrV { size, base: None, index: None, scale: 1, disp: 0, label: None }
}

/// The terms of a memory operand up to and past its `]`, added to `m`: the first register
/// is the base, a second one or one scaled by `*n` the index, numbers add to or (after `-`)
/// subtract from the displacement, and any other name is a label.
pub open spec fn mem_terms(ts: Seq<(TokenV, usize)>, p: int, m: MemAddrV, line: usize) -> Result<(MemAddrV, int), Fault>
    decreases ts.len() - p when ends_with_eof(ts) && 0 <= p < ts.len()
{
    let perr = |msg: Seq<char>| Err::<(MemAddrV, int), Fault>(Fault::Parse { line, msg });
    match tok(ts, p) {
        TokenV::RBracket => Ok((m, next(ts, p))),
        TokenV::Ident(s) => match register_named(s) {
            Some(reg) => {
                let q = next(ts, p);
                if tok(ts, q) is Star {
                    let q2 = next(ts, q);
                    match tok(ts, q2) {
                        TokenV::Number(n) => mem_terms(
                            ts,
                            next(ts, q2),
                            MemAddrV { index: Some(reg), scale: n as u8, ..m },
                            line,
                        ),
                        _ => perr("expected scale after *"@),
                    }
                } else if m.base is None {
                    mem_terms(ts, q, MemAddrV { base: Some(reg), ..m }, line)
                } else {
                    mem_terms(ts, q, MemAddrV { index: Some(reg), ..m }, line)
                }
            },
            None => mem_terms(ts, next(ts, p), MemAddrV { label: Some(s), ..m }, line),
        },
        TokenV::Number(n) => mem_terms(ts, next(ts, p), MemAddrV { disp: m.disp.wrapping_add(n), ..m }, line),
        TokenV::Plus => mem_terms(ts, next(ts, p), m, line),
        TokenV::Minus => {
            let q = next(ts, p);
            match tok(ts, q) {
                TokenV::Number(n) => mem_terms(ts, next(ts, q), MemAddrV { disp: m.disp.wrapping_sub(n), ..m }, line),
                _ => perr("expected number after '-' in memory expression"@),
            }
        },
        _ => perr("unexpected token in memory expression: "@ + token_text(tok(ts, p))),
    }
}

/// One operand: a memory reference in brackets, a register, a label or a number.
pub open spec fn operand(ts: Seq<(TokenV, usize)>, p: int) -> Result<(OperandV, int), Fault> {
    let line = line_of(ts, p);
    let (size, q) = size_prefix(ts, p);
    match tok(ts, q) {
        TokenV::LBracket => match mem_terms(ts, next(ts, q), mem_start(size), line) {
            Ok((m, r)) => Ok((OperandV::Memory(m), r)),
            Err(f) => Err(f),
        },
        TokenV::Ident(s) => match register_named(s) {
            Some(reg) => Ok((OperandV::Register(reg), next(ts, q))),
            None => Ok((OperandV::Label(s), next(ts, q))),
        },
        TokenV::Number(n) => Ok((OperandV::Immediate(n), next(ts, q))),
        _ => Err(Fault::Parse { line, msg: "expected operand, got "@ + token_text(tok(ts, q)) }),
    }
}

/// Further operands, each after a comma, added to `acc`.
pub open spec fn more_operands(ts: Seq<(TokenV, usize)>, p: int, acc: Seq<OperandV>) -> Result<(Seq<OperandV>, int), Fault>
    decreases ts.len() - p when ends_with_eof(ts) && 0 <= p < ts.len()
{
    if tok(ts, p) is Comma {
        match operand(ts, next(ts, p)) {
            Ok((o, q)) => {
                proof { lemma_operand_progress(ts, next(ts, p)); }
                more_operands(ts, q, acc.push(o))
            },
            Err(f) => Err(f),
        }
    } else {
        Ok((acc, p))
    }
}

/// The operands of an instruction: none at the end of a line, else a comma-separated list.
pub open spec fn operands(ts: Seq<(TokenV, usize)>, p: int) -> Result<(Seq<OperandV>, int), Fault> {
    if tok(ts, p) is Newline || tok(ts, p) is Eof {
        Ok((Seq::empty(), p))
    } else {
        match operand(ts, p) {
            Ok((o, q)) => more_operands(ts, q, seq![o]),
            Err(f) => Err(f),
        }
    }
}

/// The bytes that one `db` item stands for: a string's bytes, or a number's low byte.
pub open spec fn item_bytes(t: TokenV) -> Seq<u8> {
    match t {
        TokenV::StringLit(bs) => bs,
        TokenV::Number(n) => seq![n as u8],
        _ => Seq::empty(),
    }
}

/// The comma-separated strings and numbers of a `db`, added to `acc`; a name among them is
/// an error.
pub open spec fn db_items(ts: Seq<(TokenV, usize)>, p: int, acc: Seq<u8>, line: usize) -> Result<(Seq<u8>, int), Fault>
    decreases ts.len() - p when ends_with_eof(ts) && 0 <= p < ts.len()
{
    let t = tok(ts, p);
    if t is Ident {
        Err(Fault::Parse { line, msg: "unexpected ident '"@ + t->Ident_0 + "' in db"@ })
    } else if t is StringLit || t is Number {
        let acc2 = acc + item_bytes(t);
        let q = next(ts, p);
        if tok(ts, q) is Comma { db_items(ts, next(ts, q), acc2, line) } else { Ok((acc2, q)) }
    } else {
        Ok((acc, p))
    }
}

/// The comma-separated numbers at `p`, added to `acc`.
pub open spec fn number_items(ts: Seq<(TokenV, usize)>, p: int, acc: Seq<i64>) -> (Seq<i64>, int)
    decreases ts.len() - p when ends_with_eof(ts) && 0 <= p < ts.len()
{
    match tok(ts, p) {
        TokenV::Number(n) => {
            let q = next(ts, p);
            if tok(ts, q) is Comma { number_items(ts, next(ts, q), acc.push(n)) } else { (acc.push(n), q) }
        },
        _ => (acc, p),
    }
}

/// The numbers of a `dw`, `dd` or `dq` (named `name`), each of which must lie in `0..=max`.
pub open spec fn word_items(ts: Seq<(TokenV, usize)>, p: int, max: int, name: Seq<char>) -> Result<(Seq<i64>, int), Fault> {
    let (ns, q) = number_items(ts, p, Seq::empty());
    if forall|i: int| 0 <= i < ns.len() ==> 0 <= #[trigger] ns[i] <= max {
        Ok((ns, q))
    } else {
        Err(Fault::Parse { line: line_of(ts, p), msg: name + " value out of range: TryFromIntError(())"@ })
    }
}

/// A line holding one directive, with the newlines after it skipped.
pub open spec fn directive_line(ts: Seq<(TokenV, usize)>, d: DirectiveV, q: int) -> Result<(Option<AsmLineV>, int), Fault> {
    Ok((Some(AsmLineV::Directive(d)), skip_newlines(ts, q)))
}

/// `name equ value`, from the value on.
pub open spec fn equ_value(ts: Seq<(TokenV, usize)>, q: int, name: Seq<char>, line: usize) -> Result<(Option<AsmLineV>, int), Fault> {
    match tok(ts, q) {
        TokenV::Number(n) => directive_line(ts, DirectiveV::Equ(name, n), next(ts, q)),
        _ => Err(Fault::Parse { line, msg: "expected number after equ"@ }),
    }
}

/// The name after `section`, `global` or `extern`.
pub open spec fn name_directive(ts: Seq<(TokenV, usize)>, q: int, section: bool, line: usize) -> Result<(Option<AsmLineV>, int), Fault> {
    match tok(ts, q) {
        TokenV::Ident(name) => directive_line(
            ts,
            if section { DirectiveV::Section(name) } else { DirectiveV::Global(name) },
            next(ts, q),
        ),
        _ => Err(Fault::Parse { line, msg: if section { "expected section name"@ } else { "expected symbol name"@ } }),
    }
}

/// `times n db ...`, from the count on.
pub open spec fn times_directive(ts: Seq<(TokenV, usize)>, q: int, line: usize) -> Result<(Option<AsmLineV>, int), Fault> {
    match tok(ts, q) {
        TokenV::Number(n) => {
            let q2 = next(ts, q);
            match tok(ts, q2) {
                TokenV::Ident(d) => if spells(d, "db") {
                    let q3 = next(ts, q2);
                    match db_items(ts, q3, Seq::empty(), line_of(ts, q3)) {
                        Ok((bs, r)) => directive_line(
                            ts,
                            DirectiveV::Times { count: n as usize, inner: Box::new(DirectiveV::Db(bs)) },
                            r,
                        ),
                        Err(f) => Err(f),
                    }
                } else {
                    Err(Fault::Parse { line, msg: "expected directive after times"@ })
                },
                _ => Err(Fault::Parse { line, msg: "expected directive after times count"@ }),
            }
        },
        _ => Err(Fault::Parse { line, msg: "expected count after times"@ }),
    }
}

/// A `dw`, `dd` or `dq` line of `bytes`-byte words, from its first value on.
pub open spec fn words_line(ts: Seq<(TokenV, usize)>, q: int, bytes: u64) -> Result<(Option<AsmLineV>, int), Fault> {
    match word_items(ts, q, word_max(bytes), word_name(bytes)) {
        Ok((ns, r)) => directive_line(ts, words_directive(bytes, ns), r),
        Err(f) => Err(f),
    }
}

/// Whether `s` names a data directive, which may follow a label without a colon.
pub open spec fn is_data_word(s: Seq<char>) -> bool {
    spells(s, "db") || spells(s, "dw") || spells(s, "dd") || spells(s, "dq") || spells(s, "times")
}

/// One step of parsing at a token other than `Eof`: the line it yields, if any, and where
/// parsing goes on.
pub open spec fn statement(ts: Seq<(TokenV, usize)>, p: int) -> Result<(Option<AsmLineV>, int), Fault> {
    let line = line_of(ts, p);
    match tok(ts, p) {
        TokenV::Newline => Ok((None, next(ts, p))),
        TokenV::Ident(s) => {
            let q = next(ts, p);
            if spells(s, "section") {
                name_directive(ts, q, true, line)
            } else if spells(s, "global") || spells(s, "extern") {
                name_directive(ts, q, false, line)
            } else if spells(s, "db") {
                match db_items(ts, q, Seq::empty(), line_of(ts, q)) {
                    Ok((bs, r)) => directive_line(ts, DirectiveV::Db(bs), r),
                    Err(f) => Err(f),
                }
            } else if spells(s, "dw") {
                words_line(ts, q, 2)
            } else if spells(s, "dd") {
                words_line(ts, q, 4)
            } else if spells(s, "dq") {
                words_line(ts, q, 8)
            } else if spells(s, "times") {
                times_directive(ts, q, line)
            } else if p + 1 < ts.len() && tok(ts, p + 1) is Colon {
                let q2 = next(ts, q);
                if tok(ts, q2) matches TokenV::Ident(kw) && spells(kw, "equ") {
                    equ_value(ts, next(ts, q2), s, line)
                } else {
                    Ok((Some(AsmLineV::Label(s)), q2))
                }
            } else if p + 1 < ts.len() && (tok(ts, p + 1) matches TokenV::Ident(kw) && spells(kw, "equ")) {
                equ_value(ts, next(ts, q), s, line)
            } else if p + 1 < ts.len() && (tok(ts, p + 1) matches TokenV::Ident(kw) && is_data_word(kw)) {
                Ok((Some(AsmLineV::Label(s)), q))
            } else {
                match op_named(s) {
                    Some(op) => match operands(ts, q) {
                        Ok((ops, r)) => Ok((
                            Some(AsmLineV::Instruction(InstructionV { op, operands: ops, line })),
                            skip_newlines(ts, r),
                        )),
                        Err(f) => Err(f),
                    },
                    None => Err(Fault::Parse { line, msg: "unknown instruction or directive: '"@ + s + "'"@ }),
                }
            }
        },
        _ => Err(Fault::Parse { line, msg: "unexpected token: "@ + token_text(tok(ts, p)) }),
    }
}

/// The lines from `p` to `Eof`, after those in `acc`; or the first error.
pub open spec fn lines_from(ts: Seq<(TokenV, usize)>, p: int, acc: Seq<AsmLineV>) -> Result<Seq<AsmLineV>, Fault>
    decreases ts.len() - p when ends_with_eof(ts) && 0 <= p < ts.len()
{
    if tok(ts, p) is Eof {
        Ok(acc)
    } else {
        match statement(ts, p) {
            Ok((ol, q)) => {
                proof { lemma_statement_progress(ts, p); }
                lines_from(ts, q, match ol { Some(l) => acc.push(l), None => acc })
            },
            Err(f) => Err(f),
        }
    }
}

/// The lines of a token sequence, read from position `p`, leading newlines skipped.
pub open spec fn parse_tokens(ts: Seq<(TokenV, usize)>, p: int) -> Result<Seq<AsmLineV>, Fault> {
    lines_from(ts, skip_newlines(ts, p), Seq::empty())
}


/// The view of a line that may be absent.
pub open spec fn line_opt_view(o: Option<AsmLine>) -> Option<AsmLineV> {
    match o {
        Some(l) => Some(l@),
        None => None,
    }
}

/// The largest value of a `bytes`-byte data word.
pub open spec fn word_max(bytes: u64) -> int {
    if bytes == 2 { 0xFFFF } else if bytes == 4 { 0xFFFF_FFFF } else { 0xFFFF_FFFF_FFFF_FFFF }
}

/// The name of the directive of `bytes`-byte data words.
pub open spec fn word_name(bytes: u64) -> Seq<char> {
    if bytes == 2 { "dw"@ } else if bytes == 4 { "dd"@ } else { "dq"@ }
}

/// The `dw`, `dd` or `dq` directive with the values `ns`.
pub open spec fn words_directive(bytes: u64, ns: Seq<i64>) -> DirectiveV {
    if bytes == 2 {
        DirectiveV::Dw(ns.map_values(|n: i64| n as u16))
    } else if bytes == 4 {
        DirectiveV::Dd(ns.map_values(|n: i64| n as u32))
    } else {
        DirectiveV::Dq(ns.map_values(|n: i64| n as u64))
    }
}

/// An exec result with the parser position after it, as the grammar states it.
pub open spec fn viewed<T: View>(r: Result<T, SimError>, p: int) -> Result<(T::V, int), Fault> {
    match r {
        Ok(v) => Ok((v@, p)),
        Err(e) => Err(e@),
    }
}

/// The views of operands.
pub open spec fn operands_view(ops: Seq<Operand>) -> Seq<OperandV> {
    ops.map_values(|o: Operand| o@)
}

pub struct Parser {
    tokens: Vec<(Token, usize)>,
    pos: usize,
}

impl Parser {
    /// The tokens being parsed.
    pub closed spec fn tokens_v(&self) -> Seq<(TokenV, usize)> {
        tokens_view(self.tokens@)
    }

    /// The index of the next token.
    pub closed spec fn position(&self) -> int {
        self.pos as int
    }

    /// The tokens end with `Eof` and the position lies on one of them.
    pub closed spec fn wf(&self) -> bool {
        ends_with_eof(self.tokens_v()) && self.pos < self.tokens@.len()
    }

    pub fn new(tokens: Vec<(Token, usize)>) -> (p: Self)
        ensures
            p.tokens_v() == tokens_view(tokens@),
            p.position() == 0,
    {
        Parser { tokens, pos: 0 }
    }

    fn peek(&self) -> (t: &Token)
        requires self.wf(),
        ensures t@ == tok(self.tokens_v(), self.position()),
    {
        &self.tokens[self.pos].0
    }

    fn line(&self) -> (l: usize)
        requires self.wf(),
        ensures l == line_of(self.tokens_v(), self.position()),
    {
        self.tokens[self.pos].1
    }

    fn advance(&mut self)
        requires old(self).wf(),
        ensures
            final(self).wf(),
            final(self).tokens_v() == old(self).tokens_v(),
            final(self).position() == next(old(self).tokens_v(), old(self).position()),
    {
        if self.tokens.len() - self.pos > 1 {
            self.pos = self.pos + 1;
        }
    }

    fn skip_newlines(&mut self)
        requires old(self).wf(),
        ensures
            final(self).wf(),
            final(self).tokens_v() == old(self).tokens_v(),
            final(self).position() == skip_newlines(old(self).tokens_v(), old(self).position()),
    {
        loop
            invariant
                self.wf(),
                self.tokens_v() == old(self).tokens_v(),
                skip_newlines(self.tokens_v(), self.position()) == skip_newlines(old(self).tokens_v(), old(self).position()),
            ensures
                self.position() == skip_newlines(old(self).tokens_v(), old(self).position()),
            decreases self.tokens@.len() - self.pos,
        {
            if !matches!(self.peek(), Token::Newline) {
                break;
            }
            if self.tokens.len() - self.pos <= 1 {
                break;
            }
            self.advance();
        }
    }

    /// Whether the token after the current one is a colon.
    fn colon_follows(&self) -> (r: bool)
        requires self.wf(),
        ensures r == (self.position() + 1 < self.tokens_v().len() && tok(self.tokens_v(), self.position() + 1) is Colon),
    {
        self.tokens.len() - self.pos > 1 && matches!(self.tokens[self.pos + 1].0, Token::Colon)
    }

    /// Whether the token after the current one is a name that `is` accepts.
    fn word_follows(&self, w: &str) -> (r: bool)
        requires self.wf(),
        ensures r == (self.position() + 1 < self.tokens_v().len()
            && (tok(self.tokens_v(), self.position() + 1) matches TokenV::Ident(kw) && spells(kw, w))),
    {
        if self.tokens.len() - self.pos > 1 {
            match &self.tokens[self.pos + 1].0 {
                Token::Ident(kw) => is_word(kw.as_str(), w),
                _ => false,
            }
        } else {
            false
        }
    }

    fn parse_size_override(&mut self) -> (r: Option<Size>)
        requires old(self).wf(),
        ensures
            final(self).wf(),
            final(self).tokens_v() == old(self).tokens_v(),
            (r, final(self).position()) == size_prefix(old(self).tokens_v(), old(self).position()),
    {
        let size = match self.peek() {
            Token::Ident(s) => parse_size(s.as_str()),
            _ => None,
        };
        match size {
            Some(sz) => {
                self.advance();
                let is_ptr = match self.peek() {
                    Token::Ident(p) => is_word(p.as_str(), "ptr"),
                    _ => false,
                };
                if is_ptr {
                    self.advance();
                }
                Some(sz)
            },
            None => None,
        }
    }

    fn parse_mem_addr(&mut self, size: Option<Size>, line: usize) -> (r: Result<MemAddr, SimError>)
        requires old(self).wf(),
        ensures
            final(self).wf(),
            final(self).tokens_v() == old(self).tokens_v(),
            viewed(r, final(self).position())
                == mem_terms(old(self).tokens_v(), old(self).position(), mem_start(size), line),
    {
        let ghost ts = self.tokens_v();
        let ghost target = mem_terms(ts, self.position(), mem_start(size), line);
        let mut base: Option<RegRef> = None;
        let mut index: Option<RegRef> = None;
        let mut scale: u8 = 1;
        let mut disp: i64 = 0;
        let mut label: Option<String> = None;
        loop
            invariant_except_break
                mem_terms(ts, self.position(), (MemAddr { size, base, index, scale, disp, label })@, line) == target,
            invariant
                self.wf(),
                self.tokens_v() == ts,
                ts == old(self).tokens_v(),
                target == mem_terms(ts, old(self).position(), mem_start(size), line),
            ensures
                target == Ok::<(MemAddrV, int), Fault>(((MemAddr { size, base, index, scale, disp, label })@, self.position())),
            decreases self.tokens@.len() - self.pos,
        {
            let ghost p = self.position();
            proof { lemma_next(ts, p); }
            match self.peek() {
                Token::RBracket => {
                    self.advance();
                    break;
                },
                Token::Ident(s) => {
                    let name = s.clone();
                    match parse_register(name.as_str()) {
                        Some(reg) => {
                            self.advance();
                            proof { lemma_next(ts, self.position()); }
                            if matches!(self.peek(), Token::Star) {
                                self.advance();
                                proof { lemma_next(ts, self.position()); }
                                match self.peek() {
                                    Token::Number(n) => {
                                        let n = *n;
                                        self.advance();
                                        index = Some(reg);
                                        scale = #[verifier::truncate] (n as u8);
                                    },
                                    _ => {
                                        return Err(SimError::Parse { line, msg: owned("expected scale after *") });
                                    },
                                }
                            } else if base.is_none() {
                                base = Some(reg);
                            } else {
                                index = Some(reg);
                            }
                        },
                        None => {
                            label = Some(name);
                            self.advance();
                        },
                    }
                },
                Token::Number(n) => {
                    let n = *n;
                    self.advance();
                    disp = disp.wrapping_add(n);
                },
                Token::Plus => {
                    self.advance();
                },
                Token::Minus => {
                    self.advance();
                    proof { lemma_next(ts, self.position()); }
                    match self.peek() {
                        Token::Number(n) => {
                            let n = *n;
                            self.advance();
                            disp = disp.wrapping_sub(n);
                        },
                        _ => {
                            return Err(SimError::Parse {
                                line,
                                msg: owned("expected number after '-' in memory expression"),
                            });
                        },
                    }
                },
                t => {
                    let shown = token_string(t);
                    return Err(SimError::Parse {
                        line,
                        msg: concat2("unexpected token in memory expression: ", shown.as_str()),
                    });
                },
            }
        }
        Ok(MemAddr { size, base, index, scale, disp, label })
    }

    fn parse_operand(&mut self) -> (r: Result<Operand, SimError>)
        requires old(self).wf(),
        ensures
            final(self).wf(),
            final(self).tokens_v() == old(self).tokens_v(),
            viewed(r, final(self).position()) == operand(old(self).tokens_v(), old(self).position()),
    {
        let line = self.line();
        let size = self.parse_size_override();
        match self.peek() {
            Token::LBracket => {
                self.advance();
                match self.parse_mem_addr(size, line) {
                    Ok(mem) => Ok(Operand::Memory(mem)),
                    Err(e) => Err(e),
                }
            },
            Token::Ident(s) => {
                let name = s.clone();
                match parse_register(name.as_str()) {
                    Some(reg) => {
                        self.advance();
                        Ok(Operand::Register(reg))
                    },
                    None => {
                        self.advance();
                        Ok(Operand::Label(name))
                    },
                }
            },
            Token::Number(n) => {
                let n = *n;
                self.advance();
                Ok(Operand::Immediate(n))
            },
            t => {
                let shown = token_string(t);
                Err(SimError::Parse { line, msg: concat2("expected operand, got ", shown.as_str()) })
            },
        }
    }

    fn parse_operands(&mut self) -> (r: Result<Vec<Operand>, SimError>)
        requires old(self).wf(),
        ensures
            final(self).wf(),
            final(self).tokens_v() == old(self).tokens_v(),
            match operands(old(self).tokens_v(), old(self).position()) {
                Ok((os, q)) => r matches Ok(v) && operands_view(v@) == os && final(self).position() == q,
                Err(f) => r matches Err(e) && e@ == f,
            },
    {
        let ghost ts = self.tokens_v();
        let mut ops: Vec<Operand> = Vec::new();
        if matches!(self.peek(), Token::Newline | Token::Eof) {
            assert(operands_view(ops@) =~= Seq::<OperandV>::empty());
            return Ok(ops);
        }
        match self.parse_operand() {
            Ok(o) => ops.push(o),
            Err(e) => return Err(e),
        }
        assert(operands_view(ops@) =~= seq![ops@[0]@]);
        let ghost target = operands(ts, old(self).position());
        loop
            invariant_except_break
                target == more_operands(ts, self.position(), operands_view(ops@)),
            invariant
                self.wf(),
                self.tokens_v() == ts,
                ts == old(self).tokens_v(),
                target == operands(ts, old(self).position()),
            ensures
                target == Ok::<(Seq<OperandV>, int), Fault>((operands_view(ops@), self.position())),
            decreases self.tokens@.len() - self.pos,
        {
            if !matches!(self.peek(), Token::Comma) {
                break;
            }
            let ghost p = self.position();
            proof { lemma_next(ts, p); }
            self.advance();
            proof { lemma_operand_progress(ts, self.position()); }
            match self.parse_operand() {
                Ok(o) => {
                    let ghost before = ops@;
                    ops.push(o);
                    assert(operands_view(ops@) =~= operands_view(before).push(o@));
                },
                Err(e) => return Err(e),
            }
        }
        Ok(ops)
    }

    fn parse_db_values(&mut self) -> (r: Result<Vec<u8>, SimError>)
        requires old(self).wf(),
        ensures
            final(self).wf(),
            final(self).tokens_v() == old(self).tokens_v(),
            viewed(r, final(self).position()) == db_items(
                old(self).tokens_v(),
                old(self).position(),
                Seq::empty(),
                line_of(old(self).tokens_v(), old(self).position()),
            ),
    {
        let ghost ts = self.tokens_v();
        let line = self.line();
        let ghost target = db_items(ts, self.position(), Seq::empty(), line);
        let mut bytes: Vec<u8> = Vec::new();
        loop
            invariant_except_break
                db_items(ts, self.position(), bytes@, line) == target,
            invariant
                self.wf(),
                self.tokens_v() == ts,
                ts == old(self).tokens_v(),
                line == line_of(ts, old(self).position()),
                target == db_items(ts, old(self).position(), Seq::empty(), line),
            ensures
                target == Ok::<(Seq<u8>, int), Fault>((bytes@, self.position())),
            decreases self.tokens@.len() - self.pos,
        {
            let ghost p = self.position();
            proof { lemma_next(ts, p); }
            match self.peek() {
                Token::StringLit(s) => {
                    let item = s.clone();
                    self.advance();
                    let mut i: usize = 0;
                    let ghost before = bytes@;
                    while i < item.len()
                        invariant
                            i <= item@.len(),
                            bytes@ == before + item@.take(i as int),
                        decreases item@.len() - i,
                    {
                        bytes.push(item[i]);
                        proof { assert(item@.take(i + 1) =~= item@.take(i as int).push(item@[i as int])); }
                        i = i + 1;
                    }
                    proof {
                        assert(item@.take(item@.len() as int) =~= item@);
                        assert(item@ =~= item_bytes(tok(ts, p)));
                    }
                },
                Token::Number(n) => {
                    let n = *n;
                    self.advance();
                    let b: u8 = #[verifier::truncate] (n as u8);
                    let ghost before = bytes@;
                    bytes.push(b);
                    assert(bytes@ =~= before + item_bytes(tok(ts, p)));
                },
                Token::Ident(s) => {
                    return Err(SimError::Parse { line, msg: concat3("unexpected ident '", s.as_str(), "' in db") });
                },
                _ => {
                    break;
                },
            }
            proof { lemma_next(ts, self.position()); }
            if matches!(self.peek(), Token::Comma) {
                self.advance();
            } else {
                break;
            }
        }
        Ok(bytes)
    }

    /// Comma-separated numbers, each of which must lie in `0..=max`; `name` is the directive.
    fn parse_word_values(&mut self, name: &str, max: u64) -> (r: Result<Vec<u64>, SimError>)
        requires old(self).wf(),
        ensures
            final(self).wf(),
            final(self).tokens_v() == old(self).tokens_v(),
            match word_items(old(self).tokens_v(), old(self).position(), max as int, name@) {
                Ok((ns, q)) => r matches Ok(v) && v@.len() == ns.len()
                    && (forall|i: int| 0 <= i < ns.len() ==> v@[i] == ns[i])
                    && final(self).position() == q,
                Err(f) => r matches Err(e) && e@ == f,
            },
    {
        let ghost ts = self.tokens_v();
        let line = self.line();
        let ghost start = self.position();
        let ghost all = number_items(ts, start, Seq::empty());
        let mut vals: Vec<u64> = Vec::new();
        let ghost mut seen: Seq<i64> = Seq::empty();
        loop
            invariant_except_break
                number_items(ts, self.position(), seen) == all,
            invariant
                self.wf(),
                self.tokens_v() == ts,
                ts == old(self).tokens_v(),
                start == old(self).position(),
                line == line_of(ts, start),
                all == number_items(ts, start, Seq::empty()),
                vals@.len() == seen.len(),
                forall|i: int| 0 <= i < seen.len() ==> vals@[i] == seen[i] && 0 <= #[trigger] seen[i] <= max,
            ensures
                all == (seen, self.position()),
            decreases self.tokens@.len() - self.pos,
        {
            let ghost p = self.position();
            proof { lemma_next(ts, p); }
            match self.peek() {
                Token::Number(n) => {
                    let n = *n;
                    self.advance();
                    if n < 0 || n as u64 > max {
                        proof {
                            lemma_number_items_prefix(ts, p, seen);
                            let k = seen.len() as int;
                            assert(all.0[k] == n);
                        }
                        return Err(SimError::Parse {
                            line,
                            msg: concat2(name, " value out of range: TryFromIntError(())"),
                        });
                    }
                    vals.push(n as u64);
                    proof { seen = seen.push(n); }
                },
                _ => {
                    break;
                },
            }
            proof { lemma_next(ts, self.position()); }
            if matches!(self.peek(), Token::Comma) {
                self.advance();
            } else {
                break;
            }
        }
        Ok(vals)
    }

    /// `name equ value`, from the value on.
    fn parse_equ_value(&mut self, name: String, line: usize) -> (r: Result<Option<AsmLine>, SimError>)
        requires old(self).wf(),
        ensures
            final(self).wf(),
            final(self).tokens_v() == old(self).tokens_v(),
            match equ_value(old(self).tokens_v(), old(self).position(), name@, line) {
                Ok((ol, q)) => r matches Ok(o) && line_opt_view(o) == ol && final(self).position() == q,
                Err(f) => r matches Err(e) && e@ == f,
            },
    {
        match self.peek() {
            Token::Number(n) => {
                let n = *n;
                self.advance();
                self.skip_newlines();
                Ok(Some(AsmLine::Directive(Directive::Equ(name, n))))
            },
            _ => Err(SimError::Parse { line, msg: owned("expected number after equ") }),
        }
    }

    /// The name after `section`, `global` or `extern`.
    fn parse_name_directive(&mut self, section: bool, line: usize) -> (r: Result<Option<AsmLine>, SimError>)
        requires old(self).wf(),
        ensures
            final(self).wf(),
            final(self).tokens_v() == old(self).tokens_v(),
            match name_directive(old(self).tokens_v(), old(self).position(), section, line) {
                Ok((ol, q)) => r matches Ok(o) && line_opt_view(o) == ol && final(self).position() == q,
                Err(f) => r matches Err(e) && e@ == f,
            },
    {
        match self.peek() {
            Token::Ident(name) => {
                let name = name.clone();
                self.advance();
                self.skip_newlines();
                let d = if section { Directive::Section(name) } else { Directive::Global(name) };
                Ok(Some(AsmLine::Directive(d)))
            },
            _ => {
                let msg = if section { owned("expected section name") } else { owned("expected symbol name") };
                Err(SimError::Parse { line, msg })
            },
        }
    }

    /// `times n db ...`, from the count on.
    fn parse_times(&mut self, line: usize) -> (r: Result<Option<AsmLine>, SimError>)
        requires old(self).wf(),
        ensures
            final(self).wf(),
            final(self).tokens_v() == old(self).tokens_v(),
            match times_directive(old(self).tokens_v(), old(self).position(), line) {
                Ok((ol, q)) => r matches Ok(o) && line_opt_view(o) == ol && final(self).position() == q,
                Err(f) => r matches Err(e) && e@ == f,
            },
    {
        let count: usize = match self.peek() {
            Token::Number(n) => {
                let n = *n;
                self.advance();
                #[verifier::truncate] (n as usize)
            },
            _ => {
                return Err(SimError::Parse { line, msg: owned("expected count after times") });
            },
        };
        let is_db = match self.peek() {
            Token::Ident(d) => is_word(d.as_str(), "db"),
            _ => {
                return Err(SimError::Parse { line, msg: owned("expected directive after times count") });
            },
        };
        if !is_db {
            return Err(SimError::Parse { line, msg: owned("expected directive after times") });
        }
        self.advance();
        match self.parse_db_values() {
            Ok(bytes) => {
                self.skip_newlines();
                let d = Directive::Times { count, inner: Box::new(Directive::Db(bytes)) };
                assert(directive_view(Directive::Db(bytes)) == DirectiveV::Db(bytes@));
                assert(d@ == DirectiveV::Times { count, inner: Box::new(DirectiveV::Db(bytes@)) });
                Ok(Some(AsmLine::Directive(d)))
            },
            Err(e) => Err(e),
        }
    }

    /// `dw`, `dd` or `dq` values, from the first value on.
    fn parse_words(&mut self, bytes: u64) -> (r: Result<Option<AsmLine>, SimError>)
        requires
            old(self).wf(),
            bytes == 2 || bytes == 4 || bytes == 8,
        ensures
            final(self).wf(),
            final(self).tokens_v() == old(self).tokens_v(),
            match word_items(old(self).tokens_v(), old(self).position(), word_max(bytes), word_name(bytes)) {
                Ok((ns, q)) => r matches Ok(o) && line_opt_view(o) == Some(AsmLineV::Directive(words_directive(bytes, ns)))
                    && final(self).position() == skip_newlines(old(self).tokens_v(), q),
                Err(f) => r matches Err(e) && e@ == f,
            },
    {
        let max: u64 = if bytes == 2 { 0xFFFF } else if bytes == 4 { 0xFFFF_FFFF } else { 0xFFFF_FFFF_FFFF_FFFF };
        let name = if bytes == 2 { "dw" } else if bytes == 4 { "dd" } else { "dq" };
        let vals = match self.parse_word_values(name, max) {
            Ok(v) => v,
            Err(e) => return Err(e),
        };
        self.skip_newlines();
        let ghost ns = number_items(old(self).tokens_v(), old(self).position(), Seq::empty()).0;
        let d = if bytes == 2 {
            let mut ws: Vec<u16> = Vec::new();
            let mut i: usize = 0;
            while i < vals.len()
                invariant
                    i <= vals@.len(),
                    ws@.len() == i,
                    vals@.len() == ns.len(),
                    forall|j: int| 0 <= j < ns.len() ==> vals@[j] == ns[j] && 0 <= #[trigger] ns[j] <= 0xFFFF,
                    forall|j: int| 0 <= j < i ==> ws@[j] == ns[j],
                decreases vals@.len() - i,
            {
                ws.push(vals[i] as u16);
                i = i + 1;
            }
            assert(ws@ =~= ns.map_values(|n: i64| n as u16));
            Directive::Dw(ws)
        } else if bytes == 4 {
            let mut ws: Vec<u32> = Vec::new();
            let mut i: usize = 0;
            while i < vals.len()
                invariant
                    i <= vals@.len(),
                    ws@.len() == i,
                    vals@.len() == ns.len(),
                    forall|j: int| 0 <= j < ns.len() ==> vals@[j] == ns[j] && 0 <= #[trigger] ns[j] <= 0xFFFF_FFFF,
                    forall|j: int| 0 <= j < i ==> ws@[j] == ns[j],
                decreases vals@.len() - i,
            {
                ws.push(vals[i] as u32);
                i = i + 1;
            }
            assert(ws@ =~= ns.map_values(|n: i64| n as u32));
            Directive::Dd(ws)
        } else {
            assert(vals@ =~= ns.map_values(|n: i64| n as u64));
            Directive::Dq(vals)
        };
        Ok(Some(AsmLine::Directive(d)))
    }

    /// One step of parsing at a token other than `Eof`.
    fn parse_statement(&mut self) -> (r: Result<Option<AsmLine>, SimError>)
        requires
            old(self).wf(),
            !(tok(old(self).tokens_v(), old(self).position()) is Eof),
        ensures
            final(self).wf(),
            final(self).tokens_v() == old(self).tokens_v(),
            match statement(old(self).tokens_v(), old(self).position()) {
                Ok((ol, q)) => r matches Ok(o) && line_opt_view(o) == ol && final(self).position() == q,
                Err(f) => r matches Err(e) && e@ == f,
            },
    {
        let ghost ts = self.tokens_v();
        let ghost p = self.position();
        proof { lemma_next(ts, p); lemma_next(ts, next(ts, p)); }
        let line = self.line();
        let s: String = match self.peek() {
            Token::Newline => {
                self.advance();
                return Ok(None);
            },
            Token::Ident(s) => s.clone(),
            t => {
                let shown = token_string(t);
                return Err(SimError::Parse { line, msg: concat2("unexpected token: ", shown.as_str()) });
            },
        };
        if is_word(s.as_str(), "section") {
            self.advance();
            self.parse_name_directive(true, line)
        } else if is_word(s.as_str(), "global") || is_word(s.as_str(), "extern") {
            self.advance();
            self.parse_name_directive(false, line)
        } else if is_word(s.as_str(), "db") {
            self.advance();
            match self.parse_db_values() {
                Ok(bytes) => {
                    self.skip_newlines();
                    Ok(Some(AsmLine::Directive(Directive::Db(bytes))))
                },
                Err(e) => Err(e),
            }
        } else if is_word(s.as_str(), "dw") {
            self.advance();
            self.parse_words(2)
        } else if is_word(s.as_str(), "dd") {
            self.advance();
            self.parse_words(4)
        } else if is_word(s.as_str(), "dq") {
            self.advance();
            self.parse_words(8)
        } else if is_word(s.as_str(), "times") {
            self.advance();
            self.parse_times(line)
        } else if self.colon_follows() {
            self.advance();
            self.advance();
            let is_equ = match self.peek() {
                Token::Ident(kw) => is_word(kw.as_str(), "equ"),
                _ => false,
            };
            if is_equ {
                self.advance();
                self.parse_equ_value(s, line)
            } else {
                Ok(Some(AsmLine::Label(s)))
            }
        } else if self.word_follows("equ") {
            self.advance();
            self.advance();
            self.parse_equ_value(s, line)
        } else if self.word_follows("db") || self.word_follows("dw") || self.word_follows("dd")
            || self.word_follows("dq") || self.word_follows("times") {
            self.advance();
            Ok(Some(AsmLine::Label(s)))
        } else {
            match parse_op(s.as_str()) {
                Some(op) => {
                    self.advance();
                    match self.parse_operands() {
                        Ok(operands) => {
                            self.skip_newlines();
                            Ok(Some(AsmLine::Instruction(Instruction { op, operands, line })))
                        },
                        Err(e) => Err(e),
                    }
                },
                None => Err(SimError::Parse {
                    line,
                    msg: concat3("unknown instruction or directive: '", s.as_str(), "'"),
                }),
            }
        }
    }

    /// The assembly lines of the tokens from the current position to `Eof`.
    pub fn parse(&mut self) -> (r: Result<Vec<AsmLine>, SimError>)
        requires
            ends_with_eof(old(self).tokens_v()),
            old(self).position() < old(self).tokens_v().len(),
        ensures
            match parse_tokens(old(self).tokens_v(), old(self).position()) {
                Ok(ls) => r matches Ok(v) && lines_view(v@) == ls,
                Err(f) => r matches Err(e) && e@ == f,
            },
    {
        let ghost ts = self.tokens_v();
        let ghost target = parse_tokens(ts, self.position());
        let mut lines: Vec<AsmLine> = Vec::new();
        self.skip_newlines();
        proof {
            lemma_skip_newlines(ts, old(self).position());
            assert(lines_view(lines@) =~= Seq::<AsmLineV>::empty());
        }
        loop
            invariant_except_break
                lines_from(ts, self.position(), lines_view(lines@)) == target,
            invariant
                self.wf(),
                self.tokens_v() == ts,
                ts == old(self).tokens_v(),
                target == parse_tokens(ts, old(self).position()),
            ensures
                target == Ok::<Seq<AsmLineV>, Fault>(lines_view(lines@)),
            decreases self.tokens@.len() - self.pos,
        {
            if matches!(self.peek(), Token::Eof) {
                break;
            }
            let ghost p = self.position();
            let ghost before = lines@;
            proof { lemma_statement_progress(ts, p); }
            match self.parse_statement() {
                Ok(Some(l)) => {
                    lines.push(l);
                    assert(lines_view(lines@) =~= lines_view(before).push(l@));
                },
                Ok(None) => {},
                Err(e) => {
                    assert(lines_from(ts, p, lines_view(before)) == Err::<Seq<AsmLineV>, Fault>(e@));
                    return Err(e);
                },
            }
        }
        Ok(lines)
    }
}

pub proof fn lemma_next(ts: Seq<(TokenV, usize)>, p: int)
    requires ends_with_eof(ts), 0 <= p < ts.len(),
    ensures
        p <= next(ts, p) < ts.len(),
        !(tok(ts, p) is Eof) ==> next(ts, p) == p + 1,
{
}

pub proof fn lemma_skip_newlines(ts: Seq<(TokenV, usize)>, p: int)
    requires ends_with_eof(ts), 0 <= p < ts.len(),
    ensures p <= skip_newlines(ts, p) < ts.len(),
    decreases ts.len() - p,
{
    if p + 1 < ts.len() && tok(ts, p) is Newline {
        lemma_skip_newlines(ts, p + 1);
    }
}

pub proof fn lemma_size_prefix(ts: Seq<(TokenV, usize)>, p: int)
    requires ends_with_eof(ts), 0 <= p < ts.len(),
    ensures p <= size_prefix(ts, p).1 < ts.len(),
{
    lemma_next(ts, p);
    lemma_next(ts, next(ts, p));
}

pub proof fn lemma_mem_progress(ts: Seq<(TokenV, usize)>, p: int, m: MemAddrV, line: usize)
    requires ends_with_eof(ts), 0 <= p < ts.len(),
    ensures mem_terms(ts, p, m, line) matches Ok((_, q)) ==> p < q < ts.len(),
    decreases ts.len() - p,
{
    lemma_next(ts, p);
    let q = next(ts, p);
    lemma_next(ts, q);
    lemma_next(ts, next(ts, q));
    match tok(ts, p) {
        TokenV::Ident(s) => match register_named(s) {
            Some(reg) => {
                if tok(ts, q) is Star {
                    let q2 = next(ts, q);
                    if let TokenV::Number(n) = tok(ts, q2) {
                        lemma_mem_progress(ts, next(ts, q2), MemAddrV { index: Some(reg), scale: n as u8, ..m }, line);
                    }
                } else if m.base is None {
                    lemma_mem_progress(ts, q, MemAddrV { base: Some(reg), ..m }, line);
                } else {
                    lemma_mem_progress(ts, q, MemAddrV { index: Some(reg), ..m }, line);
                }
            },
            None => lemma_mem_progress(ts, q, MemAddrV { label: Some(s), ..m }, line),
        },
        TokenV::Number(n) => lemma_mem_progress(ts, q, MemAddrV { disp: m.disp.wrapping_add(n), ..m }, line),
        TokenV::Plus => lemma_mem_progress(ts, q, m, line),
        TokenV::Minus => {
            if let TokenV::Number(n) = tok(ts, q) {
                lemma_mem_progress(ts, next(ts, q), MemAddrV { disp: m.disp.wrapping_sub(n), ..m }, line);
            }
        },
        _ => {},
    }
}

pub proof fn lemma_operand_progress(ts: Seq<(TokenV, usize)>, p: int)
    requires ends_with_eof(ts), 0 <= p < ts.len(),
    ensures operand(ts, p) matches Ok((_, q)) ==> p < q < ts.len(),
{
    lemma_size_prefix(ts, p);
    let q = size_prefix(ts, p).1;
    lemma_next(ts, q);
    lemma_mem_progress(ts, next(ts, q), mem_start(size_prefix(ts, p).0), line_of(ts, p));
}

pub proof fn lemma_more_operands_progress(ts: Seq<(TokenV, usize)>, p: int, acc: Seq<OperandV>)
    requires ends_with_eof(ts), 0 <= p < ts.len(),
    ensures more_operands(ts, p, acc) matches Ok((_, q)) ==> p <= q < ts.len(),
    decreases ts.len() - p,
{
    if tok(ts, p) is Comma {
        lemma_next(ts, p);
        lemma_operand_progress(ts, next(ts, p));
        if let Ok((o, q)) = operand(ts, next(ts, p)) {
            lemma_more_operands_progress(ts, q, acc.push(o));
        }
    }
}

pub proof fn lemma_db_progress(ts: Seq<(TokenV, usize)>, p: int, acc: Seq<u8>, line: usize)
    requires ends_with_eof(ts), 0 <= p < ts.len(),
    ensures db_items(ts, p, acc, line) matches Ok((_, q)) ==> p <= q < ts.len(),
    decreases ts.len() - p,
{
    let t = tok(ts, p);
    lemma_next(ts, p);
    lemma_next(ts, next(ts, p));
    if !(t is Ident) && (t is StringLit || t is Number) && tok(ts, next(ts, p)) is Comma {
        lemma_db_progress(ts, next(ts, next(ts, p)), acc + item_bytes(t), line);
    }
}

pub proof fn lemma_number_progress(ts: Seq<(TokenV, usize)>, p: int, acc: Seq<i64>)
    requires ends_with_eof(ts), 0 <= p < ts.len(),
    ensures p <= number_items(ts, p, acc).1 < ts.len(),
    decreases ts.len() - p,
{
    lemma_next(ts, p);
    lemma_next(ts, next(ts, p));
    if let TokenV::Number(n) = tok(ts, p) {
        if tok(ts, next(ts, p)) is Comma {
            lemma_number_progress(ts, next(ts, next(ts, p)), acc.push(n));
        }
    }
}

pub proof fn lemma_statement_progress(ts: Seq<(TokenV, usize)>, p: int)
    requires ends_with_eof(ts), 0 <= p < ts.len(), !(tok(ts, p) is Eof),
    ensures statement(ts, p) matches Ok((_, q)) ==> p < q < ts.len(),
{
    lemma_next(ts, p);
    let q = next(ts, p);
    lemma_next(ts, q);
    let q2 = next(ts, q);
    lemma_next(ts, q2);
    let q3 = next(ts, q2);
    lemma_next(ts, q3);
    lemma_skip_newlines(ts, next(ts, q2));
    lemma_skip_newlines(ts, next(ts, q3));
    lemma_db_progress(ts, q, Seq::empty(), line_of(ts, q));
    lemma_db_progress(ts, q3, Seq::empty(), line_of(ts, q3));
    if let Ok((_, r)) = db_items(ts, q, Seq::empty(), line_of(ts, q)) {
        lemma_skip_newlines(ts, r);
    }
    if let Ok((_, r)) = db_items(ts, q3, Seq::empty(), line_of(ts, q3)) {
        lemma_skip_newlines(ts, r);
    }
    lemma_number_progress(ts, q, Seq::empty());
    lemma_skip_newlines(ts, number_items(ts, q, Seq::empty()).1);
    if !(tok(ts, q) is Newline || tok(ts, q) is Eof) {
        lemma_operand_progress(ts, q);
        if let Ok((o, r)) = operand(ts, q) {
            lemma_more_operands_progress(ts, r, seq![o]);
            if let Ok((_, r2)) = more_operands(ts, r, seq![o]) {
                lemma_skip_newlines(ts, r2);
            }
        }
    } else {
        lemma_skip_newlines(ts, q);
    }
}

/// Reading numbers keeps those already read at the front, and a number at `p` comes next.
pub proof fn lemma_number_items_prefix(ts: Seq<(TokenV, usize)>, p: int, acc: Seq<i64>)
    requires ends_with_eof(ts), 0 <= p < ts.len(),
    ensures
        number_items(ts, p, acc).0.len() >= acc.len(),
        forall|i: int| 0 <= i < acc.len() ==> number_items(ts, p, acc).0[i] == acc[i],
        tok(ts, p) matches TokenV::Number(n) ==> number_items(ts, p, acc).0.len() > acc.len()
            && number_items(ts, p, acc).0[acc.len() as int] == n,
    decreases ts.len() - p,
{
    lemma_next(ts, p);
    lemma_next(ts, next(ts, p));
    if let TokenV::Number(n) = tok(ts, p) {
        let q = next(ts, p);
        if tok(ts, q) is Comma {
            lemma_number_items_prefix(ts, next(ts, q), acc.push(n));
            assert(number_items(ts, p, acc) == number_items(ts, next(ts, q), acc.push(n)));
        } else {
            assert(number_items(ts, p, acc) == (acc.push(n), q));
        }
        let r = number_items(ts, p, acc).0;
        assert(r[acc.len() as int] == acc.push(n)[acc.len() as int]);
        assert forall|i: int| 0 <= i < acc.len() implies r[i] == acc[i] by {
            assert(r[i] == acc.push(n)[i]);
        }
    } else {
        assert(number_items(ts, p, acc) == (acc, p));
    }
}

} // verus!
