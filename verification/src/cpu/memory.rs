//! The flat byte-addressed memory, with bounds and text-segment write checks.
use vstd::prelude::*;
use crate::error::{Fault, SimError};
use crate::program::{DATA_BASE, MEM_SIZE, STACK_TOP, TEXT_BASE};
use crate::text::{hex_text, concat2, concat3, hex};

verus! {

/// The unsigned value of `bytes` read least significant byte first.
pub open spec fn le_value(bytes: Seq<u8>) -> nat
    decreases bytes.len(),
{
    if bytes.len() == 0 { 0 } else { bytes[0] as nat + 256 * le_value(bytes.drop_first()) }
}

/// The low `n` bytes of `v`, least significant first.
pub open spec fn le_bytes(v: u64, n: nat) -> Seq<u8> {
    Seq::new(n, |k: int| ((v >> (8 * k) as u64) & 0xFF) as u8)
}

/// `data` with `bytes` written over it from position `addr` on.
pub open spec fn splice(data: Seq<u8>, addr: int, bytes: Seq<u8>) -> Seq<u8> {
    data.take(addr) + bytes + data.skip(addr + bytes.len())
}

/// Why an access of `len` bytes at `addr` is refused, if it is: it must end within memory,
/// and a write must not start in the text segment.
pub open spec fn access_error(addr: u64, len: u64, write: bool) -> Option<Seq<char>> {
    if addr as int + len as int > MEM_SIZE as int {
        Some("segfault: address "@ + hex_text(addr as nat) + " out of bounds"@)
    } else if write && TEXT_BASE <= addr < DATA_BASE {
        Some("segfault: write to text segment at "@ + hex_text(addr as nat))
    } else {
        None
    }
}

/// The error of a refused access at instruction pointer `rip`.
pub open spec fn access_fault(addr: u64, len: u64, write: bool, rip: u64) -> Fault {
    Fault::Runtime {
        rip,
        msg: match access_error(addr, len, write) {
            Some(m) => m,
            None => Seq::empty(),
        },
    }
}

/// Whether an access of `len` bytes at `addr` is allowed: it must end within memory, and a
/// write must not start in the text segment.
pub open spec fn access_ok(addr: u64, len: u64, write: bool) -> bool {
    &&& addr as int + len as int <= MEM_SIZE as int
    &&& !(write && TEXT_BASE <= addr < DATA_BASE)
}

pub struct Memory {
    pub data: Vec<u8>,
    pub text_start: u64,
    pub data_start: u64,
    pub stack_start: u64,
}

impl Memory {
    /// The memory holds exactly MEM_SIZE bytes.
    pub open spec fn wf(&self) -> bool {
        self.data@.len() == MEM_SIZE
    }

    pub fn new() -> (m: Self)
        ensures
            m.wf(),
            m.data@ == Seq::new(MEM_SIZE as nat, |i: int| 0u8),
            m.text_start == TEXT_BASE,
            m.data_start == DATA_BASE,
            m.stack_start == STACK_TOP,
    {
        let data = vec![0u8; MEM_SIZE];
        assert(data@ =~= Seq::new(MEM_SIZE as nat, |i: int| 0u8));
        Memory { data, text_start: TEXT_BASE, data_start: DATA_BASE, stack_start: STACK_TOP }
    }

    fn check(&self, addr: u64, len: u64, write: bool, rip: u64) -> (r: Result<(), SimError>)
        ensures
            r is Ok <==> access_ok(addr, len, write),
            access_ok(addr, len, write) <==> access_error(addr, len, write) is None,
            r matches Err(e) ==> e@ == access_fault(addr, len, write, rip),
    {
        let addr_end = addr.saturating_add(len);
        if addr_end > MEM_SIZE as u64 {
            return Err(SimError::Runtime { rip, msg: concat3("segfault: address ", hex(addr).as_str(), " out of bounds") });
        }
        if write && addr < DATA_BASE && addr >= TEXT_BASE {
            return Err(SimError::Runtime { rip, msg: concat2("segfault: write to text segment at ", hex(addr).as_str()) });
        }
        Ok(())
    }

    pub fn read_u8(&self, addr: u64, rip: u64) -> (r: Result<u8, SimError>)
        requires self.wf(),
        ensures
            r is Ok <==> access_ok(addr, 1, false),
            r matches Ok(v) ==> v as nat == le_value(self.data@.subrange(addr as int, addr + 1)),
            r matches Err(e) ==> e@ == access_fault(addr, 1, false, rip),
    {
        self.check(addr, 1, false, rip)?;
        proof { reveal_with_fuel(le_value, 2); }
        Ok(self.data[addr as usize])
    }

    pub fn read_u16(&self, addr: u64, rip: u64) -> (r: Result<u16, SimError>)
        requires self.wf(),
        ensures
            r is Ok <==> access_ok(addr, 2, false),
            r matches Ok(v) ==> v as nat == le_value(self.data@.subrange(addr as int, addr + 2)),
            r matches Err(e) ==> e@ == access_fault(addr, 2, false, rip),
    {
        self.check(addr, 2, false, rip)?;
        let i = addr as usize;
        let b0 = self.data[i];
        let b1 = self.data[i + 1];
        let v = (b0 as u16) | ((b1 as u16) << 8u16);
        proof {
            reveal_with_fuel(le_value, 3);
            let s = self.data@.subrange(addr as int, addr + 2);
            assert(s.drop_first().drop_first() =~= Seq::<u8>::empty());
            assert(v as nat == b0 as nat + 256 * b1 as nat) by (bit_vector)
                requires v == (b0 as u16) | ((b1 as u16) << 8u16);
        }
        Ok(v)
    }

    pub fn read_u32(&self, addr: u64, rip: u64) -> (r: Result<u32, SimError>)
        requires self.wf(),
        ensures
            r is Ok <==> access_ok(addr, 4, false),
            r matches Ok(v) ==> v as nat == le_value(self.data@.subrange(addr as int, addr + 4)),
            r matches Err(e) ==> e@ == access_fault(addr, 4, false, rip),
    {
        self.check(addr, 4, false, rip)?;
        let i = addr as usize;
        let b0 = self.data[i];
        let b1 = self.data[i + 1];
        let b2 = self.data[i + 2];
        let b3 = self.data[i + 3];
        let v = (b0 as u32) | ((b1 as u32) << 8u32) | ((b2 as u32) << 16u32) | ((b3 as u32) << 24u32);
        proof {
            lemma_le_value4(self.data@.subrange(addr as int, addr + 4));
            assert(v as nat == b0 as nat + 256 * b1 as nat + 65536 * b2 as nat + 16777216 * b3 as nat) by (bit_vector)
                requires v == (b0 as u32) | ((b1 as u32) << 8u32) | ((b2 as u32) << 16u32) | ((b3 as u32) << 24u32);
        }
        Ok(v)
    }

    pub fn read_u64(&self, addr: u64, rip: u64) -> (r: Result<u64, SimError>)
        requires self.wf(),
        ensures
            r is Ok <==> access_ok(addr, 8, false),
            r matches Ok(v) ==> v as nat == le_value(self.data@.subrange(addr as int, addr + 8)),
            r matches Err(e) ==> e@ == access_fault(addr, 8, false, rip),
    {
        self.check(addr, 8, false, rip)?;
        let i = addr as usize;
        let b0 = self.data[i];
        let b1 = self.data[i + 1];
        let b2 = self.data[i + 2];
        let b3 = self.data[i + 3];
        let b4 = self.data[i + 4];
        let b5 = self.data[i + 5];
        let b6 = self.data[i + 6];
        let b7 = self.data[i + 7];
        let lo = (b0 as u64) | ((b1 as u64) << 8u64) | ((b2 as u64) << 16u64) | ((b3 as u64) << 24u64);
        let hi = (b4 as u64) | ((b5 as u64) << 8u64) | ((b6 as u64) << 16u64) | ((b7 as u64) << 24u64);
        let v = lo | (hi << 32u64);
        proof {
            lemma_le_value8(self.data@.subrange(addr as int, addr + 8));
            assert(v as nat == (b0 as nat + 256 * b1 as nat + 65536 * b2 as nat + 16777216 * b3 as nat)
                + 4294967296 * (b4 as nat + 256 * b5 as nat + 65536 * b6 as nat + 16777216 * b7 as nat)) by (bit_vector)
                requires
                    lo == (b0 as u64) | ((b1 as u64) << 8u64) | ((b2 as u64) << 16u64) | ((b3 as u64) << 24u64),
                    hi == (b4 as u64) | ((b5 as u64) << 8u64) | ((b6 as u64) << 16u64) | ((b7 as u64) << 24u64),
                    v == lo | (hi << 32u64);
        }
        Ok(v)
    }

    /// Writes the low `n` bytes of `v` at index `i`, least significant first.
    fn store(&mut self, i: usize, v: u64, n: usize)
        requires
            old(self).wf(),
            i + n <= MEM_SIZE,
            n <= 8,
        ensures
            final(self).wf(),
            final(self).data@ == splice(old(self).data@, i as int, le_bytes(v, n as nat)),
            final(self).text_start == old(self).text_start,
            final(self).data_start == old(self).data_start,
            final(self).stack_start == old(self).stack_start,
    {
        let mut k: usize = 0;
        while k < n
            invariant
                k <= n <= 8,
                i + n <= MEM_SIZE,
                self.wf(),
                old(self).wf(),
                self.data@ == splice(old(self).data@, i as int, le_bytes(v, k as nat)),
                self.text_start == old(self).text_start,
                self.data_start == old(self).data_start,
                self.stack_start == old(self).stack_start,
            decreases n - k,
        {
            let b = #[verifier::truncate] (((v >> (8 * k) as u64) & 0xFF) as u8);
            assert(8 * k < 64);
            proof {
                lemma_splice_push(old(self).data@, i as int, le_bytes(v, k as nat), b);
                assert(le_bytes(v, k as nat).push(b) =~= le_bytes(v, (k + 1) as nat));
            }
            self.data.set(i + k, b);
            k = k + 1;
        }
    }

    pub fn write_u8(&mut self, addr: u64, val: u8, rip: u64) -> (r: Result<(), SimError>)
        requires old(self).wf(),
        ensures
            final(self).wf(),
            r is Ok <==> access_ok(addr, 1, true),
            r is Ok ==> final(self).data@ == splice(old(self).data@, addr as int, le_bytes(val as u64, 1)),
            r is Err ==> final(self).data@ == old(self).data@,
            r matches Err(e) ==> e@ == access_fault(addr, 1, true, rip),
            final(self).text_start == old(self).text_start,
            final(self).data_start == old(self).data_start,
            final(self).stack_start == old(self).stack_start,
    {
        self.check(addr, 1, true, rip)?;
        self.store(addr as usize, val as u64, 1);
        Ok(())
    }

    pub fn write_u16(&mut self, addr: u64, val: u16, rip: u64) -> (r: Result<(), SimError>)
        requires old(self).wf(),
        ensures
            final(self).wf(),
            r is Ok <==> access_ok(addr, 2, true),
            r is Ok ==> final(self).data@ == splice(old(self).data@, addr as int, le_bytes(val as u64, 2)),
            r is Err ==> final(self).data@ == old(self).data@,
            r matches Err(e) ==> e@ == access_fault(addr, 2, true, rip),
            final(self).text_start == old(self).text_start,
            final(self).data_start == old(self).data_start,
            final(self).stack_start == old(self).stack_start,
    {
        self.check(addr, 2, true, rip)?;
        self.store(addr as usize, val as u64, 2);
        Ok(())
    }

    pub fn write_u32(&mut self, addr: u64, val: u32, rip: u64) -> (r: Result<(), SimError>)
        requires old(self).wf(),
        ensures
            final(self).wf(),
            r is Ok <==> access_ok(addr, 4, true),
            r is Ok ==> final(self).data@ == splice(old(self).data@, addr as int, le_bytes(val as u64, 4)),
            r is Err ==> final(self).data@ == old(self).data@,
            r matches Err(e) ==> e@ == access_fault(addr, 4, true, rip),
            final(self).text_start == old(self).text_start,
            final(self).data_start == old(self).data_start,
            final(self).stack_start == old(self).stack_start,
    {
        self.check(addr, 4, true, rip)?;
        self.store(addr as usize, val as u64, 4);
        Ok(())
    }

    pub fn write_u64(&mut self, addr: u64, val: u64, rip: u64) -> (r: Result<(), SimError>)
        requires old(self).wf(),
        ensures
            final(self).wf(),
            r is Ok <==> access_ok(addr, 8, true),
            r is Ok ==> final(self).data@ == splice(old(self).data@, addr as int, le_bytes(val, 8)),
            r is Err ==> final(self).data@ == old(self).data@,
            r matches Err(e) ==> e@ == access_fault(addr, 8, true, rip),
            final(self).text_start == old(self).text_start,
            final(self).data_start == old(self).data_start,
            final(self).stack_start == old(self).stack_start,
    {
        self.check(addr, 8, true, rip)?;
        self.store(addr as usize, val, 8);
        Ok(())
    }

    pub fn write_bytes(&mut self, addr: u64, bytes: &[u8], rip: u64) -> (r: Result<(), SimError>)
        requires old(self).wf(),
        ensures
            final(self).wf(),
            r is Ok <==> access_ok(addr, bytes@.len() as u64, true),
            r is Ok ==> final(self).data@ == splice(old(self).data@, addr as int, bytes@),
            r is Err ==> final(self).data@ == old(self).data@,
            r matches Err(e) ==> e@ == access_fault(addr, bytes@.len() as u64, true, rip),
            final(self).text_start == old(self).text_start,
            final(self).data_start == old(self).data_start,
            final(self).stack_start == old(self).stack_start,
    {
        self.check(addr, bytes.len() as u64, true, rip)?;
        let i = addr as usize;
        let mut k: usize = 0;
        while k < bytes.len()
            invariant
                k <= bytes@.len(),
                i + bytes@.len() <= MEM_SIZE,
                self.wf(),
                old(self).wf(),
                self.data@ == splice(old(self).data@, i as int, bytes@.take(k as int)),
                self.text_start == old(self).text_start,
                self.data_start == old(self).data_start,
                self.stack_start == old(self).stack_start,
            decreases bytes@.len() - k,
        {
            proof {
                lemma_splice_push(old(self).data@, i as int, bytes@.take(k as int), bytes@[k as int]);
                assert(bytes@.take(k as int).push(bytes@[k as int]) =~= bytes@.take(k + 1));
            }
            self.data.set(i + k, bytes[k]);
            k = k + 1;
        }
        assert(bytes@.take(bytes@.len() as int) =~= bytes@);
        Ok(())
    }

    pub fn read_bytes(&self, addr: u64, len: usize, rip: u64) -> (r: Result<&[u8], SimError>)
        requires self.wf(),
        ensures
            r is Ok <==> access_ok(addr, len as u64, false),
            r matches Ok(s) ==> s@ == self.data@.subrange(addr as int, addr + len),
            r matches Err(e) ==> e@ == access_fault(addr, len as u64, false, rip),
    {
        self.check(addr, len as u64, false, rip)?;
        let i = addr as usize;
        Ok(&self.data.as_slice()[i..i + len])
    }
}

/// Writing one more byte after a spliced run extends the run.
proof fn lemma_splice_push(d: Seq<u8>, i: int, bs: Seq<u8>, b: u8)
    requires 0 <= i, i + bs.len() < d.len(),
    ensures splice(d, i, bs).update(i + bs.len(), b) == splice(d, i, bs.push(b)),
{
    assert(splice(d, i, bs).update(i + bs.len(), b) =~= splice(d, i, bs.push(b)));
}

proof fn lemma_le_value4(s: Seq<u8>)
    requires s.len() == 4,
    ensures le_value(s) == s[0] as nat + 256 * s[1] as nat + 65536 * s[2] as nat + 16777216 * s[3] as nat,
{
    reveal_with_fuel(le_value, 5);
    assert(s.drop_first().drop_first().drop_first().drop_first() =~= Seq::<u8>::empty());
}

proof fn lemma_le_value8(s: Seq<u8>)
    requires s.len() == 8,
    ensures le_value(s) == (s[0] as nat + 256 * s[1] as nat + 65536 * s[2] as nat + 16777216 * s[3] as nat)
        + 4294967296 * (s[4] as nat + 256 * s[5] as nat + 65536 * s[6] as nat + 16777216 * s[7] as nat),
{
    lemma_le_value4(s.subrange(4, 8));
    reveal_with_fuel(le_value, 5);
    assert(s.drop_first().drop_first().drop_first().drop_first() =~= s.subrange(4, 8));
}

proof fn lemma_byte_cast(v: u64, s: u64)
    ensures ((v >> s) & 0xFF) as u8 as u64 == (v >> s) & 0xFF,
{
    assert(((v >> s) & 0xFF) as u8 as u64 == (v >> s) & 0xFF) by (bit_vector);
}

/// A load of `n` bytes (1, 2, 4 or 8) from where a store of `n` bytes of `v` went gives back
/// the low `n` bytes of `v`; every byte outside the stored range keeps its value.
pub proof fn lemma_load_after_store(data: Seq<u8>, addr: int, v: u64, n: nat)
    requires
        n == 1 || n == 2 || n == 4 || n == 8,
        0 <= addr,
        addr + n <= data.len(),
    ensures
        splice(data, addr, le_bytes(v, n)).subrange(addr, addr + n) == le_bytes(v, n),
        n == 1 ==> le_value(le_bytes(v, n)) == v & 0xFF,
        n == 2 ==> le_value(le_bytes(v, n)) == v & 0xFFFF,
        n == 4 ==> le_value(le_bytes(v, n)) == v & 0xFFFF_FFFF,
        n == 8 ==> le_value(le_bytes(v, n)) == v,
        splice(data, addr, le_bytes(v, n)).len() == data.len(),
        forall|j: int| 0 <= j < data.len() && !(addr <= j < addr + n)
            ==> #[trigger] splice(data, addr, le_bytes(v, n))[j] == data[j],
{
    let bs = le_bytes(v, n);
    assert(splice(data, addr, bs).subrange(addr, addr + n) =~= bs);
    assert forall|k: int| 0 <= k < n implies bs[k] as u64 == (v >> (8 * k) as u64) & 0xFF by {
        lemma_byte_cast(v, (8 * k) as u64);
    }
    assert(bs[0] as u64 == (v >> 0u64) & 0xFF);
    assert(n >= 2 ==> bs[1] as u64 == (v >> 8u64) & 0xFF);
    assert(n >= 4 ==> bs[2] as u64 == (v >> 16u64) & 0xFF);
    assert(n >= 4 ==> bs[3] as u64 == (v >> 24u64) & 0xFF);
    assert(n >= 8 ==> bs[4] as u64 == (v >> 32u64) & 0xFF);
    assert(n >= 8 ==> bs[5] as u64 == (v >> 40u64) & 0xFF);
    assert(n >= 8 ==> bs[6] as u64 == (v >> 48u64) & 0xFF);
    assert(n >= 8 ==> bs[7] as u64 == (v >> 56u64) & 0xFF);
    if n == 8 {
        lemma_le_value8(bs);
        assert(((v >> 0u64) & 0xFF) + 256 * ((v >> 8u64) & 0xFF) + 65536 * ((v >> 16u64) & 0xFF) + 16777216 * ((v >> 24u64) & 0xFF)
            + 4294967296 * (((v >> 32u64) & 0xFF) + 256 * ((v >> 40u64) & 0xFF) + 65536 * ((v >> 48u64) & 0xFF) + 16777216 * ((v >> 56u64) & 0xFF)) == v) by (bit_vector);
    } else if n == 4 {
        lemma_le_value4(bs);
        assert(((v >> 0u64) & 0xFF) + 256 * ((v >> 8u64) & 0xFF) + 65536 * ((v >> 16u64) & 0xFF) + 16777216 * ((v >> 24u64) & 0xFF) == v & 0xFFFF_FFFF) by (bit_vector);
    } else if n == 2 {
        reveal_with_fuel(le_value, 3);
        assert(bs.drop_first().drop_first() =~= Seq::<u8>::empty());
        assert(le_value(bs.drop_first()) == bs[1] as nat);
        assert(le_value(bs) == bs[0] as nat + 256 * bs[1] as nat);
        assert(bs[0] == ((v >> 0u64) & 0xFF) as u8);
        assert(bs[1] == ((v >> 8u64) & 0xFF) as u8);
        assert(((v >> 0u64) & 0xFF) as u8 as u64 == (v >> 0u64) & 0xFF
            && ((v >> 8u64) & 0xFF) as u8 as u64 == (v >> 8u64) & 0xFF
            && ((v >> 0u64) & 0xFF) + 256 * ((v >> 8u64) & 0xFF) == v & 0xFFFF) by (bit_vector);
    } else {
        reveal_with_fuel(le_value, 2);
        assert(bs.drop_first() =~= Seq::<u8>::empty());
        assert(le_value(bs) == bs[0] as nat);
        assert(bs[0] == ((v >> 0u64) & 0xFF) as u8);
        assert(((v >> 0u64) & 0xFF) as u8 as u64 == (v >> 0u64) & 0xFF && (v >> 0u64) & 0xFF == v & 0xFF) by (bit_vector);
    }
}

} // verus!
