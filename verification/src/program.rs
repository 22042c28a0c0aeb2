//! An assembled program: its instructions, symbols, data and entry point.
use vstd::prelude::*;
use vstd::hash_map::StringHashMap;
use crate::ast::{lines_view, AsmLine, AsmLineV};

verus! {

pub const TEXT_BASE: u64 = 0x1000;
pub const DATA_BASE: u64 = 0x0010_0000;
pub const STACK_TOP: u64 = 0x00FF_0000;
/// 16 MiB.
pub const MEM_SIZE: usize = 0x0100_0000;

pub struct Program {
    /// Instructions in order; the one at index i has the address TEXT_BASE + i.
    pub instructions: Vec<AsmLine>,
    /// Label and constant names with their values (an address or a constant).
    pub symbols: StringHashMap<i64>,
    /// Initialized data, loaded at DATA_BASE.
    pub data: Vec<u8>,
    /// Address of the first instruction to run.
    pub entry: u64,
}

/// A program with its lines and symbol names as views.
pub struct ProgramV {
    pub instructions: Seq<AsmLineV>,
    pub symbols: Map<Seq<char>, i64>,
    pub data: Seq<u8>,
    pub entry: u64,
}

impl View for Program {
    type V = ProgramV;

    open spec fn view(&self) -> ProgramV {
        ProgramV { instructions: lines_view(self.instructions@), symbols: self.symbols@, data: self.data@, entry: self.entry }
    }
}

} // verus!
