//! The system calls read, write and exit.
use vstd::prelude::*;
use crate::ast::Register;
use crate::cpu::execute::{follows, machine, same_layout};
use crate::cpu::memory::Memory;
use crate::cpu::registers::Registers;
use crate::cpu::semantics::{syscall_spec, IoV};
use crate::error::SimError;
use crate::text::{concat2, decimal};

verus! {

/// The buffers that system calls read and write.
pub struct SyscallIo<'a> {
    pub stdout: Vec<u8>,
    pub stderr: Vec<u8>,
    pub stdin: &'a [u8],
    pub stdin_pos: usize,
    pub exit_code: i32,
}

impl<'a> View for SyscallIo<'a> {
    type V = IoV;

    open spec fn view(&self) -> IoV {
        IoV { stdout: self.stdout@, stderr: self.stderr@, stdin: self.stdin@, stdin_pos: self.stdin_pos, exit_code: self.exit_code }
    }
}

pub(crate) fn append_bytes(out: &mut Vec<u8>, bytes: &[u8])
    ensures final(out)@ == old(out)@ + bytes@,
{
    out.extend_from_slice(bytes);
    assert(out@ =~= old(out)@ + bytes@);
}

/// Performs the system call that RAX selects. Returns true when the program has exited.
pub fn dispatch(regs: &mut Registers, mem: &mut Memory, io: &mut SyscallIo<'_>) -> (r: Result<bool, SimError>)
    requires
        old(mem).wf(),
        old(io).stdin_pos <= old(io).stdin@.len(),
    ensures
        same_layout(*old(mem), *final(mem)),
        final(io).stdin_pos <= final(io).stdin@.len(),
        final(io).stdin@ == old(io).stdin@,
        follows(r, syscall_spec(machine(*old(regs), *old(mem), old(io)@)), old(regs).rip, *final(regs), *final(mem), final(io)@),
{
    let rip = regs.rip;
    let rax = regs.read_named(Register::Rax);
    if rax == 0 {
        let fd = regs.read_named(Register::Rdi);
        let buf = regs.read_named(Register::Rsi);
        let len = regs.read_named(Register::Rdx) as usize;
        if fd != 0 {
            regs.write_named(Register::Rax, u64::MAX);
            return Ok(false);
        }
        let available = io.stdin.len().saturating_sub(io.stdin_pos);
        let n = if len < available { len } else { available };
        let slice = &io.stdin[io.stdin_pos..io.stdin_pos + n];
        mem.write_bytes(buf, slice, rip)?;
        io.stdin_pos = io.stdin_pos + n;
        regs.write_named(Register::Rax, n as u64);
        Ok(false)
    } else if rax == 1 {
        let fd = regs.read_named(Register::Rdi);
        let buf = regs.read_named(Register::Rsi);
        let len = regs.read_named(Register::Rdx) as usize;
        let bytes = mem.read_bytes(buf, len, rip)?;
        let n = bytes.len();
        if fd == 1 {
            append_bytes(&mut io.stdout, bytes);
        } else if fd == 2 {
            append_bytes(&mut io.stderr, bytes);
        } else {
            regs.write_named(Register::Rax, u64::MAX);
            return Ok(false);
        }
        regs.write_named(Register::Rax, n as u64);
        Ok(false)
    } else if rax == 60 {
        io.exit_code = regs.read_named(Register::Rdi) as i32;
        Ok(true)
    } else {
        Err(SimError::Runtime { rip, msg: concat2("unknown syscall: rax=", decimal(rax).as_str()) })
    }
}

} // verus!
