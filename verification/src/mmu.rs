use vstd::prelude::*;

verus! {

/// Number of bytes of addressable memory.
pub const MEM_SIZE: usize = 0x1000;

/// The CPU's memory: `MEM_SIZE` bytes, all zero at start.
pub struct Mmu {
    mem: [u8; 0x1000],
}

impl View for Mmu {
    type V = Seq<u8>;

    closed spec fn view(&self) -> Seq<u8> {
        self.mem@
    }
}

/// A memory always holds exactly `MEM_SIZE` bytes.
pub broadcast proof fn lemma_mem_len(m: &Mmu)
    ensures
        #[trigger] m@.len() == MEM_SIZE,
{
}

pub broadcast group group_mmu {
    lemma_mem_len,
}

/// Reads the big-endian 16-bit word stored at `addr` and `addr + 1` (wrapping).
pub open spec fn word_at(mem: Seq<u8>, addr: u16) -> u16 {
    (mem[addr as int] as int * 256 + mem[((addr as int + 1) % 0x10000)] as int) as u16
}

/// Whether a 16-bit read at `addr` stays inside memory.
pub open spec fn word_readable(addr: u16) -> bool {
    addr < MEM_SIZE - 1
}

impl Mmu {
    /// A zero-filled memory.
    pub fn new() -> (m: Self)
        ensures
            m@ == Seq::new(MEM_SIZE as nat, |i: int| 0u8),
    {
        let m = Mmu { mem: [0u8; 0x1000] };
        assert(m@ =~= Seq::new(MEM_SIZE as nat, |i: int| 0u8));
        m
    }

    /// The byte at `addr`; addresses past the end of memory are not readable.
    pub fn get(&self, addr: u16) -> (v: u8)
        requires
            addr < MEM_SIZE,
        ensures
            v == self@[addr as int],
    {
        self.mem[addr as usize]
    }

    /// Stores `value` at `addr`; every other byte is left as it was.
    pub fn set(&mut self, addr: u16, value: u8)
        requires
            addr < MEM_SIZE,
        ensures
            final(self)@ == old(self)@.update(addr as int, value),
    {
        self.mem[addr as usize] = value;
        assert(self@ =~= old(self)@.update(addr as int, value));
    }

    /// A handle on the byte at `addr`.
    pub fn getref(&mut self, addr: u16) -> (r: Ref<'_>)
        ensures
            r.addr == addr,
            *r.mmu == *old(self),
            *final(self) == *final(r.mmu),
    {
        Ref::new(self, addr)
    }

    /// The word whose high byte is at `addr` and low byte at `addr + 1` (wrapping).
    pub fn get16(&self, addr: u16) -> (v: u16)
        requires
            word_readable(addr),
        ensures
            v == word_at(self@, addr),
    {
        let h = self.get(addr) as u16;
        let l = self.get(addr.wrapping_add(1)) as u16;
        assert(h * 256 + l < 0x10000) by (nonlinear_arith)
            requires h < 256, l < 256;
        assert((h << 8u16) | l == h * 256 + l) by (bit_vector)
            requires h < 256, l < 256;
        h << 8 | l
    }

    /// Reading a byte gives back what the last write to that address stored,
    /// and a write leaves every other address alone.
    pub proof fn lemma_read_after_write(mem: Seq<u8>, addr: u16, value: u8, other: u16)
        requires
            mem.len() == MEM_SIZE,
            addr < MEM_SIZE,
            other < MEM_SIZE,
        ensures
            mem.update(addr as int, value)[addr as int] == value,
            other != addr ==> mem.update(addr as int, value)[other as int] == mem[other as int],
            mem.update(addr as int, value).len() == MEM_SIZE,
    {
    }
}

/// A handle on one byte of memory, standing for an instruction's memory operand.
pub struct Ref<'a> {
    pub addr: u16,
    pub mmu: &'a mut Mmu,
}

impl<'a> Ref<'a> {
    /// The memory this handle currently sees.
    pub open spec fn mem(&self) -> Seq<u8> {
        (*self.mmu)@
    }

    pub fn new(mmu: &'a mut Mmu, addr: u16) -> (r: Self)
        ensures
            r.addr == addr,
            *r.mmu == *old(mmu),
            *final(r.mmu) == *final(mmu),
    {
        Ref { addr, mmu }
    }

    /// The address this handle refers to.
    pub fn addr(&self) -> (a: u16)
        ensures
            a == self.addr,
    {
        self.addr
    }

    /// The byte this handle refers to.
    pub fn get(&self) -> (v: u8)
        requires
            self.addr < MEM_SIZE,
        ensures
            v == self.mem()[self.addr as int],
    {
        self.mmu.get(self.addr)
    }

    /// Overwrites the byte this handle refers to.
    pub fn set(&mut self, value: u8)
        requires
            old(self).addr < MEM_SIZE,
        ensures
            final(self).addr == old(self).addr,
            final(self).mem() == old(self).mem().update(old(self).addr as int, value),
            *final(final(self).mmu) == *final(old(self).mmu),
    {
        self.mmu.set(self.addr, value);
    }
}

} // verus!
