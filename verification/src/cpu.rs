use vstd::prelude::*;
use vstd::string::StrSliceExecFns;
use vstd::string::StringExecFns;

use crate::mmu::{Mmu, MEM_SIZE};

verus! {

broadcast use crate::mmu::group_mmu;

/// Carry flag.
pub const C: u8 = 0x01;
/// Zero flag.
pub const Z: u8 = 0x02;
/// Interrupt-disable flag.
pub const I: u8 = 0x04;
/// Decimal-mode flag.
pub const D: u8 = 0x08;
/// Break flag.
pub const B: u8 = 0x10;
/// Overflow flag.
pub const V: u8 = 0x40;
/// Negative flag.
pub const N: u8 = 0x80;

/// `mask` is one of the seven status flags.
pub open spec fn is_flag(mask: u8) -> bool {
    mask == C || mask == Z || mask == I || mask == D || mask == B || mask == V || mask == N
}

/// The status byte `p` with the bits of `mask` switched on (`on`) or off.
pub open spec fn with_flag(p: u8, mask: u8, on: bool) -> u8 {
    if on {
        p | mask
    } else {
        p & !mask
    }
}

/// The status byte after the negative and zero flags have been set from `v`.
pub open spec fn with_nz(p: u8, v: u8) -> u8 {
    with_flag(with_flag(p, N, v & N != 0), Z, v == 0)
}

/// The byte one below `x`, wrapping from 0 to 0xff.
pub open spec fn dec8(x: u8) -> u8 {
    if x == 0 { 0xff } else { (x - 1) as u8 }
}

/// The byte one above `x`, wrapping from 0xff to 0.
pub open spec fn inc8(x: u8) -> u8 {
    if x == 0xff { 0 } else { (x + 1) as u8 }
}

/// Address of the stack slot that the stack pointer `s` designates.
pub open spec fn stack_addr(s: u8) -> int {
    0x100 + s
}

/// The registers of the 6502.
pub struct Reg {
    /// Program counter
    pub pc: u16,
    /// Accumulator
    pub a: u8,
    /// X index register
    pub x: u8,
    /// Y index register
    pub y: u8,
    /// Stack pointer
    pub s: u8,
    /// Processor state
    pub p: u8,
}

/// Registers and memory after pushing `v`: it lands in the slot the stack
/// pointer designates, and the stack pointer moves down by one.
pub open spec fn push_spec(reg: Reg, mem: Seq<u8>, v: u8) -> (Reg, Seq<u8>) {
    (Reg { s: dec8(reg.s), ..reg }, mem.update(stack_addr(reg.s), v))
}

/// Registers after a pop, and the byte popped: the stack pointer moves up by
/// one and the slot it then designates is read.
pub open spec fn pop_spec(reg: Reg, mem: Seq<u8>) -> (Reg, u8) {
    (Reg { s: inc8(reg.s), ..reg }, mem[stack_addr(inc8(reg.s))])
}

/// Pushing a word pushes its high byte, then its low byte.
pub open spec fn push16_spec(reg: Reg, mem: Seq<u8>, v: u16) -> (Reg, Seq<u8>) {
    let (r1, m1) = push_spec(reg, mem, (v / 256) as u8);
    push_spec(r1, m1, (v % 256) as u8)
}

/// Popping a word pops its low byte, then its high byte.
pub open spec fn pop16_spec(reg: Reg, mem: Seq<u8>) -> (Reg, u16) {
    let (r1, l) = pop_spec(reg, mem);
    let (r2, h) = pop_spec(r1, mem);
    (r2, (h as int * 256 + l as int) as u16)
}

impl Reg {
    /// The power-on state: stack pointer 0xfd, status 0x34, everything else 0.
    pub fn new() -> (r: Self)
        ensures
            r == (Reg { pc: 0, a: 0, x: 0, y: 0, s: 0xfd, p: 0x34 }),
    {
        Self { pc: 0, a: 0, x: 0, y: 0, s: 0xfd, p: 0x34 }
    }

    /// Pushes `v` onto the stack in page one.
    pub fn push(&mut self, mmu: &mut Mmu, v: u8)
        ensures
            (*final(self), final(mmu)@) == push_spec(*old(self), old(mmu)@, v),
    {
        mmu.set(self.s as u16 + 0x100, v);
        self.s = self.s.wrapping_sub(1);
    }

    /// Pops a byte from the stack in page one.
    pub fn pop(&mut self, mmu: &mut Mmu) -> (v: u8)
        ensures
            (*final(self), v) == pop_spec(*old(self), old(mmu)@),
            final(mmu)@ == old(mmu)@,
    {
        self.s = self.s.wrapping_add(1);
        mmu.get(self.s as u16 + 0x100)
    }

    /// Pushes the word `v`: high byte first, then low byte.
    pub fn push16(&mut self, mmu: &mut Mmu, v: u16)
        ensures
            (*final(self), final(mmu)@) == push16_spec(*old(self), old(mmu)@, v),
    {
        assert((v >> 8u16) as u8 == (v / 256) as u8 && v as u8 == (v % 256) as u8) by (bit_vector);
        self.push(mmu, (v >> 8) as u8);
        self.push(mmu, v as u8);
    }

    /// Pops a word: low byte first, then high byte.
    pub fn pop16(&mut self, mmu: &mut Mmu) -> (v: u16)
        ensures
            (*final(self), v) == pop16_spec(*old(self), old(mmu)@),
            final(mmu)@ == old(mmu)@,
    {
        let l = self.pop(mmu) as u16;
        let h = self.pop(mmu) as u16;
        assert((h << 8u16) | l == h * 256 + l) by (bit_vector)
            requires h < 256, l < 256;
        h << 8 | l
    }

    /// The bits of the status byte selected by `mask`.
    pub fn flag(&self, mask: u8) -> (r: u8)
        ensures
            r == self.p & mask,
    {
        self.p & mask
    }

    /// Switches on the flags in `mask`.
    pub fn set_flag(&mut self, mask: u8)
        ensures
            *final(self) == (Reg { p: with_flag(old(self).p, mask, true), ..*old(self) }),
    {
        self.p |= mask;
    }

    /// Switches off the flags in `mask`.
    pub fn unset_flag(&mut self, mask: u8)
        ensures
            *final(self) == (Reg { p: with_flag(old(self).p, mask, false), ..*old(self) }),
    {
        self.p &= !mask;
    }

    /// Sets the carry flag to `carry`.
    pub fn assign_c(&mut self, carry: bool)
        ensures
            *final(self) == (Reg { p: with_flag(old(self).p, C, carry), ..*old(self) }),
    {
        let p = self.p;
        let bit = carry as u8;
        assert((p & !1u8) | 1u8 == p | 1u8 && (p & !1u8) | 0u8 == p & !1u8) by (bit_vector);
        self.p = (self.p & !C) | bit;
    }

    /// Sets the zero flag when `v` is zero, clears it otherwise.
    pub fn assign_z(&mut self, v: u8)
        ensures
            *final(self) == (Reg { p: with_flag(old(self).p, Z, v == 0), ..*old(self) }),
    {
        if v == 0 {
            self.set_flag(Z);
        } else {
            self.unset_flag(Z);
        }
    }

    /// Copies bit 6 of `v` into the overflow flag.
    pub fn assign_v(&mut self, v: u8)
        ensures
            *final(self) == (Reg { p: with_flag(old(self).p, V, v & V != 0), ..*old(self) }),
    {
        let p = self.p;
        assert((p & !0x40u8) | (v & 0x40u8) == if v & 0x40u8 != 0 { p | 0x40u8 } else { p & !0x40u8 })
            by (bit_vector);
        self.p = (self.p & !V) | (v & V);
    }

    /// Copies bit 7 of `v` into the negative flag.
    pub fn assign_n(&mut self, v: u8)
        ensures
            *final(self) == (Reg { p: with_flag(old(self).p, N, v & N != 0), ..*old(self) }),
    {
        let p = self.p;
        assert((p & !0x80u8) | (v & 0x80u8) == if v & 0x80u8 != 0 { p | 0x80u8 } else { p & !0x80u8 })
            by (bit_vector);
        self.p = (self.p & !N) | (v & N);
    }

    /// Sets the negative and zero flags from `v`.
    pub fn assign_nz(&mut self, v: u8)
        ensures
            *final(self) == (Reg { p: with_nz(old(self).p, v), ..*old(self) }),
    {
        self.assign_n(v);
        self.assign_z(v);
    }
}

/// Setting a flag and reading it back gives the value written, and no other
/// status bit changes.
pub proof fn lemma_flag_write_read(p: u8, mask: u8, on: bool)
    requires
        is_flag(mask),
    ensures
        (with_flag(p, mask, on) & mask != 0) == on,
        with_flag(p, mask, on) & !mask == p & !mask,
{
    assert(mask == 1u8 || mask == 2u8 || mask == 4u8 || mask == 8u8 || mask == 16u8 || mask == 64u8
        || mask == 128u8 ==> ((p | mask) & mask != 0) && ((p & !mask) & mask == 0)
        && (p | mask) & !mask == p & !mask && (p & !mask) & !mask == p & !mask) by (bit_vector);
}

/// Writing a flag back with the value it already has leaves the status byte
/// as it was; in particular, setting a clear flag and clearing it again
/// gives back the status byte it started from.
pub proof fn lemma_flag_restore(p: u8, mask: u8)
    requires
        is_flag(mask),
    ensures
        with_flag(p, mask, p & mask != 0) == p,
        p & mask == 0 ==> with_flag(with_flag(p, mask, true), mask, false) == p,
        p & mask != 0 ==> with_flag(with_flag(p, mask, false), mask, true) == p,
{
    assert(mask == 1u8 || mask == 2u8 || mask == 4u8 || mask == 8u8 || mask == 16u8 || mask == 64u8
        || mask == 128u8 ==> (p & mask != 0 ==> p | mask == p) && (p & mask == 0 ==> p & !mask == p)
        && (p & mask == 0 ==> (p | mask) & !mask == p) && (p & mask != 0 ==> (p & !mask) | mask == p))
        by (bit_vector);
}

/// Of two writes to the same flag, the second one wins.
pub proof fn lemma_flag_last_write_wins(p: u8, mask: u8, first: bool, second: bool)
    ensures
        with_flag(with_flag(p, mask, first), mask, second) == with_flag(p, mask, second),
{
    assert((p | mask) | mask == p | mask && (p & !mask) | mask == p | mask
        && (p | mask) & !mask == p & !mask && (p & !mask) & !mask == p & !mask) by (bit_vector);
}

/// A pop right after a push gives back the pushed byte and the registers as
/// they were before the push.
pub proof fn lemma_pop_after_push(reg: Reg, mem: Seq<u8>, v: u8)
    requires
        mem.len() == MEM_SIZE,
    ensures
        pop_spec(push_spec(reg, mem, v).0, push_spec(reg, mem, v).1) == (reg, v),
{
}

/// A word pop right after a word push gives back the pushed word and the
/// registers as they were before the push.
pub proof fn lemma_pop16_after_push16(reg: Reg, mem: Seq<u8>, v: u16)
    requires
        mem.len() == MEM_SIZE,
    ensures
        pop16_spec(push16_spec(reg, mem, v).0, push16_spec(reg, mem, v).1) == (reg, v),
{
    let (r1, m1) = push_spec(reg, mem, (v / 256) as u8);
    let (r2, m2) = push_spec(r1, m1, (v % 256) as u8);
    assert(m2[stack_addr(inc8(r2.s))] == (v % 256) as u8);
    assert(m2[stack_addr(inc8(inc8(r2.s)))] == (v / 256) as u8);
}

/// Two hexadecimal digits, lower case, of `v`.
pub open spec fn hex2(v: u8) -> Seq<char> {
    seq![hex_digit_char(v / 16), hex_digit_char(v % 16)]
}

/// The lower-case hexadecimal digit for `d`.
pub open spec fn hex_digit_char(d: u8) -> char {
    if d < 10 { (('0' as u8) + d) as char } else { (('a' as u8) + d - 10) as char }
}

/// Appends the two lower-case hexadecimal digits of `v` to `out`.
pub(crate) fn push_hex2(out: &mut String, v: u8)
    ensures
        final(out)@ == old(out)@ + hex2(v),
{
    let digits = "0123456789abcdef";
    proof {
        reveal_strlit("0123456789abcdef");
    }
    let hi = (v / 16) as usize;
    let lo = (v % 16) as usize;
    let h = digits.substring_char(hi, hi + 1);
    let l = digits.substring_char(lo, lo + 1);
    out.append(h);
    out.append(l);
    assert(h@ =~= seq![hex_digit_char(v / 16)]);
    assert(l@ =~= seq![hex_digit_char(v % 16)]);
    assert(final(out)@ =~= old(out)@ + hex2(v));
}

/// An operand held in a register (the accumulator).
pub struct RegRef<'a> {
    pub reg: &'a mut u8,
}

impl<'a> RegRef<'a> {
    /// The value of the register this operand refers to.
    pub open spec fn value(&self) -> u8 {
        *self.reg
    }

    pub fn new(reg: &'a mut u8) -> (r: Self)
        ensures
            r.value() == *old(reg),
            *final(r.reg) == *final(reg),
    {
        Self { reg }
    }

    pub fn get(&self) -> (v: u8)
        ensures
            v == self.value(),
    {
        *self.reg
    }

    pub fn set(&mut self, value: u8)
        ensures
            final(self).value() == value,
            *final(final(self).reg) == *final(old(self).reg),
    {
        *self.reg = value;
    }

    /// Text for a trace line: `", acc="` and the value in two hex digits.
    pub fn inspect(&self) -> (s: String)
        ensures
            s@ == ", acc="@ + hex2(self.value()),
    {
        let mut s = String::from_str(", acc=");
        push_hex2(&mut s, *self.reg);
        s
    }
}

/// An immediate operand.
pub struct Imm {
    pub imm: u8,
}

impl Imm {
    pub fn new(imm: u8) -> (r: Self)
        ensures
            r.imm == imm,
    {
        Self { imm }
    }

    pub fn get(&self) -> (v: u8)
        ensures
            v == self.imm,
    {
        self.imm
    }

    /// Text for a trace line: `", imm="` and the value in two hex digits.
    pub fn inspect(&self) -> (s: String)
        ensures
            s@ == ", imm="@ + hex2(self.imm),
    {
        let mut s = String::from_str(", imm=");
        push_hex2(&mut s, self.imm);
        s
    }
}

/// The absent operand of an implied-mode instruction.
pub struct Imp;

impl Imp {
    pub fn new() -> Self {
        Self
    }

    /// Text for a trace line: nothing.
    pub fn inspect(&self) -> (s: &'static str)
        ensures
            s@ == Seq::<char>::empty(),
    {
        proof {
            reveal_strlit("");
        }
        ""
    }
}

/// Per-instruction bookkeeping: cycles spent and whether the program counter
/// was set by the instruction itself.
pub struct Context {
    pub cycles: usize,
    pub jump: bool,
}

impl Context {
    pub fn new(cycles: usize) -> (c: Self)
        ensures
            c == (Context { cycles, jump: false }),
    {
        Self { cycles, jump: false }
    }

    /// Records that the instruction has set the program counter itself.
    pub fn jump(&mut self)
        ensures
            *final(self) == (Context { jump: true, ..*old(self) }),
    {
        self.jump = true;
    }

    /// Adds `cycles` to the cycles spent.
    pub fn wait(&mut self, cycles: usize)
        requires
            old(self).cycles + cycles <= usize::MAX,
        ensures
            *final(self) == (Context { cycles: (old(self).cycles + cycles) as usize, ..*old(self) }),
    {
        self.cycles += cycles;
    }
}

/// The relative-branch offset `off`, read as a signed byte.
pub open spec fn signed_offset(off: u8) -> int {
    if off < 0x80 { off as int } else { off as int - 0x100 }
}

/// Where a relative branch by `off` from `pc` lands (the 16-bit address space wraps).
pub open spec fn branch_target(pc: u16, off: u8) -> u16 {
    ((pc as int + signed_offset(off)) % 0x10000) as u16
}

/// Extra cycles of a taken branch: one, or two when it crosses a page.
pub open spec fn branch_cycles(pc: u16, target: u16) -> int {
    if pc / 0x100 != target / 0x100 { 2 } else { 1 }
}

/// A taken relative branch: moves the program counter by the signed offset
/// `off` and charges one extra cycle, two if the target is in another page.
pub fn reljump(reg: &mut Reg, ctx: &mut Context, off: u8)
    requires
        old(ctx).cycles + 2 <= usize::MAX,
    ensures
        *final(reg) == (Reg { pc: branch_target(old(reg).pc, off), ..*old(reg) }),
        *final(ctx) == (Context {
            cycles: (old(ctx).cycles + branch_cycles(old(reg).pc, branch_target(old(reg).pc, off))) as usize,
            ..*old(ctx)
        }),
{
    let orig = reg.pc;
    let byte = off;
    let off = (off as i8 as i16) as u16;
    assert(off == if byte < 0x80u8 { byte as u16 } else { (byte as u16 + 0xff00u16) as u16 })
        by (bit_vector)
        requires off == (byte as i8 as i16) as u16;
    reg.pc = reg.pc.wrapping_add(off);
    ctx.wait(if orig / 0x100 != reg.pc / 0x100 { 2 } else { 1 });
}

} // verus!
