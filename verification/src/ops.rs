//! What each instruction does to the registers, the memory and the
//! instruction's bookkeeping, once its operand has been resolved.
use vstd::prelude::*;

use crate::cpu::{
    branch_cycles, branch_target, reljump, dec8, inc8, lemma_pop16_after_push16, lemma_pop_after_push,
    pop16_spec, pop_spec, push16_spec, push_spec, stack_addr, with_flag,
    with_nz, Context, Imm, Reg, RegRef, B, C, D, I, N, V, Z,
};
use crate::mmu::{Mmu, MEM_SIZE};

verus! {

broadcast use crate::mmu::group_mmu;

/// The operand of an instruction, as its addressing mode resolved it.
#[derive(Clone, Copy)]
pub enum Operand {
    /// The accumulator.
    Acc,
    /// No operand.
    Imp,
    /// An immediate byte (also the offset of a relative branch).
    Imm(u8),
    /// The byte of memory at an address.
    Mem(u16),
}

/// The instructions of the 6502, by mnemonic.
#[derive(Clone, Copy)]
pub enum Op {
    Adc, And, Asl, Bcc, Bcs, Beq, Bit, Bmi, Bne, Bpl, Brk, Bvc, Bvs, Clc,
    Cld, Cli, Clv, Cmp, Cpx, Cpy, Dec, Dex, Dey, Eor, Inc, Inx, Iny, Jmp,
    Jsr, Lda, Ldx, Ldy, Lsr, Nop, Ora, Pha, Php, Pla, Plp, Rol, Ror, Rti,
    Rts, Sbc, Sec, Sed, Sei, Sta, Stx, Sty, Tax, Tay, Tsx, Txa, Txs, Tya,
}

/// Whether the operand has a value to read.
pub open spec fn can_read(o: Operand) -> bool {
    match o {
        Operand::Acc => true,
        Operand::Imm(_) => true,
        Operand::Mem(a) => a < MEM_SIZE,
        Operand::Imp => false,
    }
}

/// Whether the operand can be written.
pub open spec fn can_write(o: Operand) -> bool {
    match o {
        Operand::Acc => true,
        Operand::Mem(a) => a < MEM_SIZE,
        _ => false,
    }
}

/// The value of a readable operand.
pub open spec fn operand_value(reg: Reg, mem: Seq<u8>, o: Operand) -> u8 {
    match o {
        Operand::Acc => reg.a,
        Operand::Imm(v) => v,
        Operand::Mem(a) => mem[a as int],
        Operand::Imp => 0,
    }
}

/// Registers and memory after writing `v` to a writable operand.
pub open spec fn operand_store(reg: Reg, mem: Seq<u8>, o: Operand, v: u8) -> (Reg, Seq<u8>) {
    match o {
        Operand::Acc => (Reg { a: v, ..reg }, mem),
        Operand::Mem(a) => (reg, mem.update(a as int, v)),
        _ => (reg, mem),
    }
}

/// The address of a memory operand.
pub open spec fn operand_addr(o: Operand) -> u16 {
    match o {
        Operand::Mem(a) => a,
        _ => 0,
    }
}

/// The instructions that read their operand.
pub open spec fn reads_operand(op: Op) -> bool {
    match op {
        Op::Adc | Op::And | Op::Bcc | Op::Bcs | Op::Beq | Op::Bit | Op::Bmi | Op::Bne | Op::Bpl
        | Op::Bvc | Op::Bvs | Op::Cmp | Op::Cpx | Op::Cpy | Op::Dec | Op::Eor | Op::Inc | Op::Lda
        | Op::Ldx | Op::Ldy | Op::Lsr | Op::Ora | Op::Rol | Op::Ror | Op::Sbc => true,
        _ => false,
    }
}

/// The instructions that write their operand.
pub open spec fn writes_operand(op: Op) -> bool {
    match op {
        Op::Dec | Op::Inc | Op::Lsr | Op::Rol | Op::Ror | Op::Sta | Op::Stx | Op::Sty => true,
        _ => false,
    }
}

/// The conditional branches.
pub open spec fn is_branch(op: Op) -> bool {
    match op {
        Op::Bcc | Op::Bcs | Op::Beq | Op::Bmi | Op::Bne | Op::Bpl | Op::Bvc | Op::Bvs => true,
        _ => false,
    }
}

/// When `op` can run on this operand without faulting: what it reads and
/// writes exists, a branch can charge its extra cycles, and the return
/// address that `brk` and `jsr` compute does not overflow.
pub open spec fn op_ok(op: Op, reg: Reg, o: Operand, ctx: Context) -> bool {
    &&& reads_operand(op) ==> can_read(o)
    &&& writes_operand(op) ==> can_write(o)
    &&& is_branch(op) ==> ctx.cycles + 2 <= usize::MAX
    &&& (op is Brk || op is Jsr) ==> reg.pc + 2 <= u16::MAX
    &&& (op is Jmp || op is Jsr) ==> o is Mem
}

/// Registers after loading `v` into the accumulator.
pub open spec fn load_a(reg: Reg, v: u8) -> Reg {
    Reg { a: v, p: with_nz(reg.p, v), ..reg }
}

/// Registers after loading `v` into X.
pub open spec fn load_x(reg: Reg, v: u8) -> Reg {
    Reg { x: v, p: with_nz(reg.p, v), ..reg }
}

/// Registers after loading `v` into Y.
pub open spec fn load_y(reg: Reg, v: u8) -> Reg {
    Reg { y: v, p: with_nz(reg.p, v), ..reg }
}

/// Registers after writing one flag.
pub open spec fn flag_to(reg: Reg, mask: u8, on: bool) -> Reg {
    Reg { p: with_flag(reg.p, mask, on), ..reg }
}

/// A comparison of register value `r` with `m`: negative and zero from
/// `r - m`, and carry set when `r < m`.
pub open spec fn compare(reg: Reg, r: u8, m: u8) -> Reg {
    let t = ((r - m + 256) % 256) as u8;
    Reg { p: with_flag(with_nz(reg.p, t), C, r < m), ..reg }
}

/// A conditional branch: taken when `cond` holds.
pub open spec fn branch(reg: Reg, mem: Seq<u8>, ctx: Context, off: u8, cond: bool) -> (Reg, Seq<u8>, Context) {
    if cond {
        let t = branch_target(reg.pc, off);
        (Reg { pc: t, ..reg }, mem, Context { cycles: (ctx.cycles + branch_cycles(reg.pc, t)) as usize, ..ctx })
    } else {
        (reg, mem, ctx)
    }
}

/// A read-modify-write of the operand: `v` is stored and the status byte
/// becomes `p`.
pub open spec fn modify(reg: Reg, mem: Seq<u8>, o: Operand, ctx: Context, v: u8, p: u8) -> (Reg, Seq<u8>, Context) {
    let (r1, m1) = operand_store(reg, mem, o, v);
    (Reg { p, ..r1 }, m1, ctx)
}

/// What `op` does to the registers, memory and bookkeeping, given its operand.
#[verifier::opaque]
pub open spec fn op_effect(op: Op, reg: Reg, mem: Seq<u8>, o: Operand, ctx: Context) -> (Reg, Seq<u8>, Context) {
    let m = operand_value(reg, mem, o);
    let c = reg.p & C;
    let p = reg.p;
    match op {
        Op::Adc => {
            let sum = reg.a + m + c;
            let v = (sum % 256) as u8;
            (Reg { a: v, p: with_nz(with_flag(p, C, sum > 255), v), ..reg }, mem, ctx)
        },
        Op::And => (load_a(reg, reg.a & m), mem, ctx),
        Op::Asl => {
            let v = ((reg.a * 2) % 256) as u8;
            (Reg { a: v, p: with_nz(with_flag(p, C, false), v), ..reg }, mem, ctx)
        },
        Op::Bcc => branch(reg, mem, ctx, m, p & C == 0),
        Op::Bcs => branch(reg, mem, ctx, m, p & C != 0),
        Op::Beq => branch(reg, mem, ctx, m, p & Z != 0),
        Op::Bit => {
            let t = reg.a & m;
            (Reg { p: with_flag(with_flag(with_flag(p, N, t & N != 0), V, t & V != 0), Z, t == 0), ..reg }, mem, ctx)
        },
        Op::Bmi => branch(reg, mem, ctx, m, p & N != 0),
        Op::Bne => branch(reg, mem, ctx, m, p & Z == 0),
        Op::Bpl => branch(reg, mem, ctx, m, p & N == 0),
        Op::Brk => {
            let (r1, m1) = push16_spec(reg, mem, (reg.pc + 2) as u16);
            let (r2, m2) = push_spec(r1, m1, p);
            (flag_to(r2, B, true), m2, ctx)
        },
        Op::Bvc => branch(reg, mem, ctx, m, p & V == 0),
        Op::Bvs => branch(reg, mem, ctx, m, p & V != 0),
        Op::Clc => (flag_to(reg, C, false), mem, ctx),
        Op::Cld => (flag_to(reg, D, false), mem, ctx),
        Op::Cli => (flag_to(reg, I, false), mem, ctx),
        Op::Clv => (flag_to(reg, V, false), mem, ctx),
        Op::Cmp => (compare(reg, reg.a, m), mem, ctx),
        Op::Cpx => (compare(reg, reg.x, m), mem, ctx),
        Op::Cpy => (compare(reg, reg.y, m), mem, ctx),
        Op::Dec => {
            let v = dec8(m);
            modify(reg, mem, o, ctx, v, with_nz(p, v))
        },
        Op::Dex => (load_x(reg, dec8(reg.x)), mem, ctx),
        Op::Dey => (load_y(reg, dec8(reg.y)), mem, ctx),
        Op::Eor => (load_a(reg, reg.a ^ m), mem, ctx),
        Op::Inc => {
            let v = inc8(m);
            modify(reg, mem, o, ctx, v, with_nz(p, v))
        },
        Op::Inx => (load_x(reg, inc8(reg.x)), mem, ctx),
        Op::Iny => (load_y(reg, inc8(reg.y)), mem, ctx),
        Op::Jmp => (Reg { pc: operand_addr(o), ..reg }, mem, Context { jump: true, ..ctx }),
        Op::Jsr => {
            let (r1, m1) = push16_spec(Reg { pc: operand_addr(o), ..reg }, mem, (reg.pc + 2) as u16);
            (r1, m1, Context { jump: true, ..ctx })
        },
        Op::Lda => (load_a(reg, m), mem, ctx),
        Op::Ldx => (load_x(reg, m), mem, ctx),
        Op::Ldy => (load_y(reg, m), mem, ctx),
        Op::Lsr => {
            let v = m / 2;
            modify(reg, mem, o, ctx, v, with_flag(with_flag(with_flag(p, N, false), Z, v == 0), C, false))
        },
        Op::Nop => (reg, mem, ctx),
        Op::Ora => (load_a(reg, reg.a | m), mem, ctx),
        Op::Pha => {
            let (r1, m1) = push_spec(reg, mem, reg.a);
            (r1, m1, ctx)
        },
        Op::Php => {
            let (r1, m1) = push_spec(reg, mem, p);
            (r1, m1, ctx)
        },
        Op::Pla => {
            let (r1, v) = pop_spec(reg, mem);
            (load_a(r1, v), mem, ctx)
        },
        Op::Plp => {
            let (r1, v) = pop_spec(reg, mem);
            (Reg { p: v, ..r1 }, mem, ctx)
        },
        Op::Rol => {
            let v = (((m * 2) % 256) + c) as u8;
            modify(reg, mem, o, ctx, v, with_flag(with_nz(p, v), C, false))
        },
        Op::Ror => {
            let v = (m / 2 + c * 128) as u8;
            modify(reg, mem, o, ctx, v, with_flag(with_nz(p, v), C, false))
        },
        Op::Rti => {
            let (r1, v) = pop_spec(reg, mem);
            let (r2, pc) = pop16_spec(Reg { p: v, ..r1 }, mem);
            (Reg { pc, ..r2 }, mem, ctx)
        },
        Op::Rts => {
            let (r1, pc) = pop16_spec(reg, mem);
            (Reg { pc, ..r1 }, mem, ctx)
        },
        Op::Sbc => {
            let diff = reg.a - m - c;
            let v = ((diff + 512) % 256) as u8;
            (Reg { a: v, p: with_flag(with_nz(p, v), C, diff < 0), ..reg }, mem, ctx)
        },
        Op::Sec => (flag_to(reg, C, true), mem, ctx),
        Op::Sed => (flag_to(reg, D, true), mem, ctx),
        Op::Sei => (flag_to(reg, I, true), mem, ctx),
        Op::Sta => modify(reg, mem, o, ctx, reg.a, p),
        Op::Stx => modify(reg, mem, o, ctx, reg.x, p),
        Op::Sty => modify(reg, mem, o, ctx, reg.y, p),
        Op::Tax => (load_x(reg, reg.a), mem, ctx),
        Op::Tay => (load_y(reg, reg.a), mem, ctx),
        Op::Tsx => (load_x(reg, reg.s), mem, ctx),
        Op::Txa => (load_a(reg, reg.x), mem, ctx),
        Op::Txs => (Reg { s: reg.x, p: with_nz(p, reg.x), ..reg }, mem, ctx),
        Op::Tya => (load_a(reg, reg.y), mem, ctx),
    }
}

/// `PLA` right after `PHA` gives back the accumulator, and the stack pointer
/// and program counter are as before.
pub proof fn lemma_pla_after_pha(reg: Reg, mem: Seq<u8>, ctx: Context)
    requires
        mem.len() == MEM_SIZE,
    ensures
        ({
            let (r1, m1, c1) = op_effect(Op::Pha, reg, mem, Operand::Imp, ctx);
            let (r2, m2, c2) = op_effect(Op::Pla, r1, m1, Operand::Imp, c1);
            r2.a == reg.a && r2.s == reg.s && r2.pc == reg.pc && c2 == ctx
        }),
{
    reveal(op_effect);
    lemma_pop_after_push(reg, mem, reg.a);
}

/// `PLP` right after `PHP` gives back the status byte, and the stack pointer
/// is as before.
pub proof fn lemma_plp_after_php(reg: Reg, mem: Seq<u8>, ctx: Context)
    requires
        mem.len() == MEM_SIZE,
    ensures
        ({
            let (r1, m1, c1) = op_effect(Op::Php, reg, mem, Operand::Imp, ctx);
            let (r2, m2, c2) = op_effect(Op::Plp, r1, m1, Operand::Imp, c1);
            r2 == reg && c2 == ctx
        }),
{
    reveal(op_effect);
    lemma_pop_after_push(reg, mem, reg.p);
}

/// `RTS` right after `JSR` pops the return address that `JSR` pushed: the
/// address of `JSR` plus two; the stack pointer is as before.
pub proof fn lemma_rts_after_jsr(reg: Reg, mem: Seq<u8>, target: u16, ctx: Context)
    requires
        mem.len() == MEM_SIZE,
        reg.pc + 2 <= u16::MAX,
    ensures
        ({
            let (r1, m1, c1) = op_effect(Op::Jsr, reg, mem, Operand::Mem(target), ctx);
            let (r2, m2, c2) = op_effect(Op::Rts, r1, m1, Operand::Imp, c1);
            r1.pc == target && r2.pc == reg.pc + 2 && r2.s == reg.s && r2.p == reg.p
        }),
{
    reveal(op_effect);
    lemma_pop16_after_push16(Reg { pc: target, ..reg }, mem, (reg.pc + 2) as u16);
}

/// `RTI` right after `BRK` gives back the status byte from before `BRK`
/// (without the break flag) and pops the address `BRK` pushed, its own
/// address plus two; the stack pointer is as before.
pub proof fn lemma_rti_after_brk(reg: Reg, mem: Seq<u8>, ctx: Context)
    requires
        mem.len() == MEM_SIZE,
        reg.pc + 2 <= u16::MAX,
    ensures
        ({
            let (r1, m1, c1) = op_effect(Op::Brk, reg, mem, Operand::Imp, ctx);
            let (r2, m2, c2) = op_effect(Op::Rti, r1, m1, Operand::Imp, c1);
            r2.p == reg.p && r2.pc == reg.pc + 2 && r2.s == reg.s
        }),
{
    reveal(op_effect);
    let (ra, ma) = push16_spec(reg, mem, (reg.pc + 2) as u16);
    let (rb, mb) = push_spec(ra, ma, reg.p);
    lemma_pop16_after_push16(reg, mem, (reg.pc + 2) as u16);
    assert(mb[stack_addr(inc8(rb.s))] == reg.p);
    let rc = Reg { s: inc8(rb.s), p: reg.p, ..flag_to(rb, B, true) };
    assert(pop16_spec(rc, mb) == pop16_spec(Reg { p: reg.p, ..ra }, ma)) by {
        assert(mb[stack_addr(inc8(ra.s))] == ma[stack_addr(inc8(ra.s))]);
        assert(mb[stack_addr(inc8(inc8(ra.s)))] == ma[stack_addr(inc8(inc8(ra.s)))]);
    }
}

/// Reads a readable operand.
fn read(reg: &mut Reg, mmu: &mut Mmu, mem: Operand) -> (v: u8)
    requires
        can_read(mem),
    ensures
        v == operand_value(*old(reg), old(mmu)@, mem),
        *final(reg) == *old(reg),
        final(mmu)@ == old(mmu)@,
{
    match mem {
        Operand::Acc => {
            let r = RegRef::new(&mut reg.a);
            r.get()
        },
        Operand::Imm(v) => Imm::new(v).get(),
        Operand::Mem(a) => {
            let r = mmu.getref(a);
            r.get()
        },
        Operand::Imp => 0,
    }
}

/// Writes a writable operand.
fn write(reg: &mut Reg, mmu: &mut Mmu, mem: Operand, v: u8)
    requires
        can_write(mem),
    ensures
        (*final(reg), final(mmu)@) == operand_store(*old(reg), old(mmu)@, mem, v),
{
    match mem {
        Operand::Acc => {
            let mut r = RegRef::new(&mut reg.a);
            r.set(v);
        },
        Operand::Mem(a) => {
            let mut r = mmu.getref(a);
            r.set(v);
        },
        _ => {},
    }
}

/// The carry flag as 0 or 1.
fn carry(reg: &Reg) -> (c: u8)
    ensures
        c == reg.p & C,
        c <= 1,
{
    let c = reg.flag(C);
    let p = reg.p;
    assert(p & 1u8 <= 1u8) by (bit_vector);
    c
}

/// `x + y` modulo 256, and whether the sum overflowed a byte.
fn overflowing_add(x: u8, y: u8) -> (r: (u8, bool))
    ensures
        r == (((x + y) % 256) as u8, x + y > 255),
{
    (x.wrapping_add(y), x as u16 + y as u16 > 255)
}

/// Adding in two steps, first `m` then the carry `c`, is adding `m + c`.
proof fn lemma_add_with_carry(a: u8, m: u8, c: u8)
    requires
        c <= 1,
    ensures
        ((((a + m) % 256) as u8 + c) % 256) as u8 == ((a + m + c) % 256) as u8,
        (a + m > 255 || ((a + m) % 256) as u8 + c > 255) == (a + m + c > 255),
{
}

/// Subtracting in two steps, first `m` then the carry `c`, is subtracting `m + c`.
proof fn lemma_sub_with_carry(a: u8, m: u8, c: u8)
    requires
        c <= 1,
    ensures
        ((((a - m + 256) % 256) as u8 - c + 256) % 256) as u8 == ((a - m - c + 512) % 256) as u8,
        (a < m || (((a - m + 256) % 256) as u8) < c) == (a - m - c < 0),
{
}

/// `x - y` modulo 256, and whether the subtraction borrowed.
fn overflowing_sub(x: u8, y: u8) -> (r: (u8, bool))
    ensures
        r == (((x - y + 256) % 256) as u8, x < y),
{
    (x.wrapping_sub(y), x < y)
}

/// `x` shifted left by one bit (the top bit falls off), and whether the shift
/// amount, one, reaches the width of a byte: it never does.
fn overflowing_shl1(x: u8) -> (r: (u8, bool))
    ensures
        r == (((x * 2) % 256) as u8, false),
{
    assert(x << 1u8 == ((x * 2) % 256) as u8) by (bit_vector);
    (x << 1, 1 >= u8::BITS)
}

/// `x` shifted right by one bit, and whether the shift amount, one, reaches
/// the width of a byte: it never does.
fn overflowing_shr1(x: u8) -> (r: (u8, bool))
    ensures
        r == (x / 2, false),
{
    assert(x >> 1u8 == x / 2) by (bit_vector);
    (x >> 1, 1 >= u8::BITS)
}

/// `ADC`: add with carry.
pub fn adc(reg: &mut Reg, ctx: &mut Context, mmu: &mut Mmu, mem: Operand)
    requires
        op_ok(Op::Adc, *old(reg), mem, *old(ctx)),
    ensures
        (*final(reg), final(mmu)@, *final(ctx)) == op_effect(Op::Adc, *old(reg), old(mmu)@, mem, *old(ctx)),
{
    proof {
        reveal(op_effect);
    }
    let m = read(reg, mmu, mem);
    let c = carry(reg);
    proof {
        lemma_add_with_carry(reg.a, m, c);
    }
    let (v, o1) = overflowing_add(reg.a, m);
    let (v, o2) = overflowing_add(v, c);
    reg.a = v;
    reg.assign_c(o1 || o2);
    reg.assign_nz(v);
}

/// `AND`: and with accumulator.
pub fn and(reg: &mut Reg, ctx: &mut Context, mmu: &mut Mmu, mem: Operand)
    requires
        op_ok(Op::And, *old(reg), mem, *old(ctx)),
    ensures
        (*final(reg), final(mmu)@, *final(ctx)) == op_effect(Op::And, *old(reg), old(mmu)@, mem, *old(ctx)),
{
    proof {
        reveal(op_effect);
    }
    let m = read(reg, mmu, mem);
    reg.a = reg.a & m;
    let a = reg.a;
    reg.assign_nz(a);
}

/// `ASL`: shift the accumulator left.
pub fn asl(reg: &mut Reg, ctx: &mut Context, mmu: &mut Mmu, mem: Operand)
    requires
        op_ok(Op::Asl, *old(reg), mem, *old(ctx)),
    ensures
        (*final(reg), final(mmu)@, *final(ctx)) == op_effect(Op::Asl, *old(reg), old(mmu)@, mem, *old(ctx)),
{
    proof {
        reveal(op_effect);
    }
    let (a, o) = overflowing_shl1(reg.a);
    reg.a = a;
    reg.assign_c(o);
    reg.assign_nz(a);
}

/// `BCC`: branch if carry clear.
pub fn bcc(reg: &mut Reg, ctx: &mut Context, mmu: &mut Mmu, mem: Operand)
    requires
        op_ok(Op::Bcc, *old(reg), mem, *old(ctx)),
    ensures
        (*final(reg), final(mmu)@, *final(ctx)) == op_effect(Op::Bcc, *old(reg), old(mmu)@, mem, *old(ctx)),
{
    proof {
        reveal(op_effect);
    }
    let off = read(reg, mmu, mem);
    if reg.flag(C) == 0 {
        reljump(reg, ctx, off);
    }
}

/// `BCS`: branch if carry set.
pub fn bcs(reg: &mut Reg, ctx: &mut Context, mmu: &mut Mmu, mem: Operand)
    requires
        op_ok(Op::Bcs, *old(reg), mem, *old(ctx)),
    ensures
        (*final(reg), final(mmu)@, *final(ctx)) == op_effect(Op::Bcs, *old(reg), old(mmu)@, mem, *old(ctx)),
{
    proof {
        reveal(op_effect);
    }
    let off = read(reg, mmu, mem);
    if reg.flag(C) != 0 {
        reljump(reg, ctx, off);
    }
}

/// `BEQ`: branch if equal (zero set).
pub fn beq(reg: &mut Reg, ctx: &mut Context, mmu: &mut Mmu, mem: Operand)
    requires
        op_ok(Op::Beq, *old(reg), mem, *old(ctx)),
    ensures
        (*final(reg), final(mmu)@, *final(ctx)) == op_effect(Op::Beq, *old(reg), old(mmu)@, mem, *old(ctx)),
{
    proof {
        reveal(op_effect);
    }
    let off = read(reg, mmu, mem);
    if reg.flag(Z) != 0 {
        reljump(reg, ctx, off);
    }
}

/// `BIT`: test bits.
pub fn bit(reg: &mut Reg, ctx: &mut Context, mmu: &mut Mmu, mem: Operand)
    requires
        op_ok(Op::Bit, *old(reg), mem, *old(ctx)),
    ensures
        (*final(reg), final(mmu)@, *final(ctx)) == op_effect(Op::Bit, *old(reg), old(mmu)@, mem, *old(ctx)),
{
    proof {
        reveal(op_effect);
    }
    let t = reg.a & read(reg, mmu, mem);
    reg.assign_n(t);
    reg.assign_v(t);
    reg.assign_z(t);
}

/// `BMI`: branch if minus (negative set).
pub fn bmi(reg: &mut Reg, ctx: &mut Context, mmu: &mut Mmu, mem: Operand)
    requires
        op_ok(Op::Bmi, *old(reg), mem, *old(ctx)),
    ensures
        (*final(reg), final(mmu)@, *final(ctx)) == op_effect(Op::Bmi, *old(reg), old(mmu)@, mem, *old(ctx)),
{
    proof {
        reveal(op_effect);
    }
    let off = read(reg, mmu, mem);
    if reg.flag(N) != 0 {
        reljump(reg, ctx, off);
    }
}

/// `BNE`: branch if not equal (zero clear).
pub fn bne(reg: &mut Reg, ctx: &mut Context, mmu: &mut Mmu, mem: Operand)
    requires
        op_ok(Op::Bne, *old(reg), mem, *old(ctx)),
    ensures
        (*final(reg), final(mmu)@, *final(ctx)) == op_effect(Op::Bne, *old(reg), old(mmu)@, mem, *old(ctx)),
{
    proof {
        reveal(op_effect);
    }
    let off = read(reg, mmu, mem);
    if reg.flag(Z) == 0 {
        reljump(reg, ctx, off);
    }
}

/// `BPL`: branch if plus (negative clear).
pub fn bpl(reg: &mut Reg, ctx: &mut Context, mmu: &mut Mmu, mem: Operand)
    requires
        op_ok(Op::Bpl, *old(reg), mem, *old(ctx)),
    ensures
        (*final(reg), final(mmu)@, *final(ctx)) == op_effect(Op::Bpl, *old(reg), old(mmu)@, mem, *old(ctx)),
{
    proof {
        reveal(op_effect);
    }
    let off = read(reg, mmu, mem);
    if reg.flag(N) == 0 {
        reljump(reg, ctx, off);
    }
}

/// `BRK`: break: push the return address and status, set the break flag.
pub fn brk(reg: &mut Reg, ctx: &mut Context, mmu: &mut Mmu, mem: Operand)
    requires
        op_ok(Op::Brk, *old(reg), mem, *old(ctx)),
    ensures
        (*final(reg), final(mmu)@, *final(ctx)) == op_effect(Op::Brk, *old(reg), old(mmu)@, mem, *old(ctx)),
{
    proof {
        reveal(op_effect);
    }
    let pc = reg.pc + 2;
    reg.push16(mmu, pc);
    let p = reg.p;
    reg.push(mmu, p);
    reg.set_flag(B);
}

/// `BVC`: branch if overflow clear.
pub fn bvc(reg: &mut Reg, ctx: &mut Context, mmu: &mut Mmu, mem: Operand)
    requires
        op_ok(Op::Bvc, *old(reg), mem, *old(ctx)),
    ensures
        (*final(reg), final(mmu)@, *final(ctx)) == op_effect(Op::Bvc, *old(reg), old(mmu)@, mem, *old(ctx)),
{
    proof {
        reveal(op_effect);
    }
    let off = read(reg, mmu, mem);
    if reg.flag(V) == 0 {
        reljump(reg, ctx, off);
    }
}

/// `BVS`: branch if overflow set.
pub fn bvs(reg: &mut Reg, ctx: &mut Context, mmu: &mut Mmu, mem: Operand)
    requires
        op_ok(Op::Bvs, *old(reg), mem, *old(ctx)),
    ensures
        (*final(reg), final(mmu)@, *final(ctx)) == op_effect(Op::Bvs, *old(reg), old(mmu)@, mem, *old(ctx)),
{
    proof {
        reveal(op_effect);
    }
    let off = read(reg, mmu, mem);
    if reg.flag(V) != 0 {
        reljump(reg, ctx, off);
    }
}

/// `CLC`: clear carry.
pub fn clc(reg: &mut Reg, ctx: &mut Context, mmu: &mut Mmu, mem: Operand)
    requires
        op_ok(Op::Clc, *old(reg), mem, *old(ctx)),
    ensures
        (*final(reg), final(mmu)@, *final(ctx)) == op_effect(Op::Clc, *old(reg), old(mmu)@, mem, *old(ctx)),
{
    proof {
        reveal(op_effect);
    }
    reg.unset_flag(C);
}

/// `CLD`: clear decimal mode.
pub fn cld(reg: &mut Reg, ctx: &mut Context, mmu: &mut Mmu, mem: Operand)
    requires
        op_ok(Op::Cld, *old(reg), mem, *old(ctx)),
    ensures
        (*final(reg), final(mmu)@, *final(ctx)) == op_effect(Op::Cld, *old(reg), old(mmu)@, mem, *old(ctx)),
{
    proof {
        reveal(op_effect);
    }
    reg.unset_flag(D);
}

/// `CLI`: clear interrupt disable.
pub fn cli(reg: &mut Reg, ctx: &mut Context, mmu: &mut Mmu, mem: Operand)
    requires
        op_ok(Op::Cli, *old(reg), mem, *old(ctx)),
    ensures
        (*final(reg), final(mmu)@, *final(ctx)) == op_effect(Op::Cli, *old(reg), old(mmu)@, mem, *old(ctx)),
{
    proof {
        reveal(op_effect);
    }
    reg.unset_flag(I);
}

/// `CLV`: clear overflow.
pub fn clv(reg: &mut Reg, ctx: &mut Context, mmu: &mut Mmu, mem: Operand)
    requires
        op_ok(Op::Clv, *old(reg), mem, *old(ctx)),
    ensures
        (*final(reg), final(mmu)@, *final(ctx)) == op_effect(Op::Clv, *old(reg), old(mmu)@, mem, *old(ctx)),
{
    proof {
        reveal(op_effect);
    }
    reg.unset_flag(V);
}

/// `CMP`: compare with accumulator.
pub fn cmp(reg: &mut Reg, ctx: &mut Context, mmu: &mut Mmu, mem: Operand)
    requires
        op_ok(Op::Cmp, *old(reg), mem, *old(ctx)),
    ensures
        (*final(reg), final(mmu)@, *final(ctx)) == op_effect(Op::Cmp, *old(reg), old(mmu)@, mem, *old(ctx)),
{
    proof {
        reveal(op_effect);
    }
    let m = read(reg, mmu, mem);
    let (t, o) = overflowing_sub(reg.a, m);
    reg.assign_nz(t);
    reg.assign_c(o);
}

/// `CPX`: compare with X.
pub fn cpx(reg: &mut Reg, ctx: &mut Context, mmu: &mut Mmu, mem: Operand)
    requires
        op_ok(Op::Cpx, *old(reg), mem, *old(ctx)),
    ensures
        (*final(reg), final(mmu)@, *final(ctx)) == op_effect(Op::Cpx, *old(reg), old(mmu)@, mem, *old(ctx)),
{
    proof {
        reveal(op_effect);
    }
    let m = read(reg, mmu, mem);
    let (t, o) = overflowing_sub(reg.x, m);
    reg.assign_nz(t);
    reg.assign_c(o);
}

/// `CPY`: compare with Y.
pub fn cpy(reg: &mut Reg, ctx: &mut Context, mmu: &mut Mmu, mem: Operand)
    requires
        op_ok(Op::Cpy, *old(reg), mem, *old(ctx)),
    ensures
        (*final(reg), final(mmu)@, *final(ctx)) == op_effect(Op::Cpy, *old(reg), old(mmu)@, mem, *old(ctx)),
{
    proof {
        reveal(op_effect);
    }
    let m = read(reg, mmu, mem);
    let (t, o) = overflowing_sub(reg.y, m);
    reg.assign_nz(t);
    reg.assign_c(o);
}

/// `DEC`: decrement the operand.
pub fn dec(reg: &mut Reg, ctx: &mut Context, mmu: &mut Mmu, mem: Operand)
    requires
        op_ok(Op::Dec, *old(reg), mem, *old(ctx)),
    ensures
        (*final(reg), final(mmu)@, *final(ctx)) == op_effect(Op::Dec, *old(reg), old(mmu)@, mem, *old(ctx)),
{
    proof {
        reveal(op_effect);
    }
    let v = read(reg, mmu, mem).wrapping_sub(1);
    write(reg, mmu, mem, v);
    reg.assign_nz(v);
}

/// `DEX`: decrement X.
pub fn dex(reg: &mut Reg, ctx: &mut Context, mmu: &mut Mmu, mem: Operand)
    requires
        op_ok(Op::Dex, *old(reg), mem, *old(ctx)),
    ensures
        (*final(reg), final(mmu)@, *final(ctx)) == op_effect(Op::Dex, *old(reg), old(mmu)@, mem, *old(ctx)),
{
    proof {
        reveal(op_effect);
    }
    reg.x = reg.x.wrapping_sub(1);
    let x = reg.x;
    reg.assign_nz(x);
}

/// `DEY`: decrement Y.
pub fn dey(reg: &mut Reg, ctx: &mut Context, mmu: &mut Mmu, mem: Operand)
    requires
        op_ok(Op::Dey, *old(reg), mem, *old(ctx)),
    ensures
        (*final(reg), final(mmu)@, *final(ctx)) == op_effect(Op::Dey, *old(reg), old(mmu)@, mem, *old(ctx)),
{
    proof {
        reveal(op_effect);
    }
    reg.y = reg.y.wrapping_sub(1);
    let y = reg.y;
    reg.assign_nz(y);
}

/// `EOR`: exclusive or with accumulator.
pub fn eor(reg: &mut Reg, ctx: &mut Context, mmu: &mut Mmu, mem: Operand)
    requires
        op_ok(Op::Eor, *old(reg), mem, *old(ctx)),
    ensures
        (*final(reg), final(mmu)@, *final(ctx)) == op_effect(Op::Eor, *old(reg), old(mmu)@, mem, *old(ctx)),
{
    proof {
        reveal(op_effect);
    }
    let m = read(reg, mmu, mem);
    reg.a = reg.a ^ m;
    let a = reg.a;
    reg.assign_nz(a);
}

/// `INC`: increment the operand.
pub fn inc(reg: &mut Reg, ctx: &mut Context, mmu: &mut Mmu, mem: Operand)
    requires
        op_ok(Op::Inc, *old(reg), mem, *old(ctx)),
    ensures
        (*final(reg), final(mmu)@, *final(ctx)) == op_effect(Op::Inc, *old(reg), old(mmu)@, mem, *old(ctx)),
{
    proof {
        reveal(op_effect);
    }
    let v = read(reg, mmu, mem).wrapping_add(1);
    write(reg, mmu, mem, v);
    reg.assign_nz(v);
}

/// `INX`: increment X.
pub fn inx(reg: &mut Reg, ctx: &mut Context, mmu: &mut Mmu, mem: Operand)
    requires
        op_ok(Op::Inx, *old(reg), mem, *old(ctx)),
    ensures
        (*final(reg), final(mmu)@, *final(ctx)) == op_effect(Op::Inx, *old(reg), old(mmu)@, mem, *old(ctx)),
{
    proof {
        reveal(op_effect);
    }
    reg.x = reg.x.wrapping_add(1);
    let x = reg.x;
    reg.assign_nz(x);
}

/// `INY`: increment Y.
pub fn iny(reg: &mut Reg, ctx: &mut Context, mmu: &mut Mmu, mem: Operand)
    requires
        op_ok(Op::Iny, *old(reg), mem, *old(ctx)),
    ensures
        (*final(reg), final(mmu)@, *final(ctx)) == op_effect(Op::Iny, *old(reg), old(mmu)@, mem, *old(ctx)),
{
    proof {
        reveal(op_effect);
    }
    reg.y = reg.y.wrapping_add(1);
    let y = reg.y;
    reg.assign_nz(y);
}

/// `JMP`: jump to the operand's address.
pub fn jmp(reg: &mut Reg, ctx: &mut Context, mmu: &mut Mmu, mem: Operand)
    requires
        op_ok(Op::Jmp, *old(reg), mem, *old(ctx)),
    ensures
        (*final(reg), final(mmu)@, *final(ctx)) == op_effect(Op::Jmp, *old(reg), old(mmu)@, mem, *old(ctx)),
{
    proof {
        reveal(op_effect);
    }
    if let Operand::Mem(a) = mem {
        let r = mmu.getref(a);
        reg.pc = r.addr();
    }
    ctx.jump();
}

/// `JSR`: jump to subroutine: push the return address.
pub fn jsr(reg: &mut Reg, ctx: &mut Context, mmu: &mut Mmu, mem: Operand)
    requires
        op_ok(Op::Jsr, *old(reg), mem, *old(ctx)),
    ensures
        (*final(reg), final(mmu)@, *final(ctx)) == op_effect(Op::Jsr, *old(reg), old(mmu)@, mem, *old(ctx)),
{
    proof {
        reveal(op_effect);
    }
    let pc = reg.pc + 2;
    if let Operand::Mem(a) = mem {
        let r = mmu.getref(a);
        reg.pc = r.addr();
    }
    reg.push16(mmu, pc);
    ctx.jump();
}

/// `LDA`: load accumulator.
pub fn lda(reg: &mut Reg, ctx: &mut Context, mmu: &mut Mmu, mem: Operand)
    requires
        op_ok(Op::Lda, *old(reg), mem, *old(ctx)),
    ensures
        (*final(reg), final(mmu)@, *final(ctx)) == op_effect(Op::Lda, *old(reg), old(mmu)@, mem, *old(ctx)),
{
    proof {
        reveal(op_effect);
    }
    let m = read(reg, mmu, mem);
    reg.a = m;
    reg.assign_nz(m);
}

/// `LDX`: load X.
pub fn ldx(reg: &mut Reg, ctx: &mut Context, mmu: &mut Mmu, mem: Operand)
    requires
        op_ok(Op::Ldx, *old(reg), mem, *old(ctx)),
    ensures
        (*final(reg), final(mmu)@, *final(ctx)) == op_effect(Op::Ldx, *old(reg), old(mmu)@, mem, *old(ctx)),
{
    proof {
        reveal(op_effect);
    }
    let m = read(reg, mmu, mem);
    reg.x = m;
    reg.assign_nz(m);
}

/// `LDY`: load Y.
pub fn ldy(reg: &mut Reg, ctx: &mut Context, mmu: &mut Mmu, mem: Operand)
    requires
        op_ok(Op::Ldy, *old(reg), mem, *old(ctx)),
    ensures
        (*final(reg), final(mmu)@, *final(ctx)) == op_effect(Op::Ldy, *old(reg), old(mmu)@, mem, *old(ctx)),
{
    proof {
        reveal(op_effect);
    }
    let m = read(reg, mmu, mem);
    reg.y = m;
    reg.assign_nz(m);
}

/// `LSR`: shift the operand right.
pub fn lsr(reg: &mut Reg, ctx: &mut Context, mmu: &mut Mmu, mem: Operand)
    requires
        op_ok(Op::Lsr, *old(reg), mem, *old(ctx)),
    ensures
        (*final(reg), final(mmu)@, *final(ctx)) == op_effect(Op::Lsr, *old(reg), old(mmu)@, mem, *old(ctx)),
{
    proof {
        reveal(op_effect);
    }
    let (v, o) = overflowing_shr1(read(reg, mmu, mem));
    write(reg, mmu, mem, v);
    reg.unset_flag(N);
    reg.assign_z(v);
    reg.assign_c(o);
}

/// `NOP`: no operation.
pub fn nop(reg: &mut Reg, ctx: &mut Context, mmu: &mut Mmu, mem: Operand)
    requires
        op_ok(Op::Nop, *old(reg), mem, *old(ctx)),
    ensures
        (*final(reg), final(mmu)@, *final(ctx)) == op_effect(Op::Nop, *old(reg), old(mmu)@, mem, *old(ctx)),
{
    proof {
        reveal(op_effect);
    }

}

/// `ORA`: or with accumulator.
pub fn ora(reg: &mut Reg, ctx: &mut Context, mmu: &mut Mmu, mem: Operand)
    requires
        op_ok(Op::Ora, *old(reg), mem, *old(ctx)),
    ensures
        (*final(reg), final(mmu)@, *final(ctx)) == op_effect(Op::Ora, *old(reg), old(mmu)@, mem, *old(ctx)),
{
    proof {
        reveal(op_effect);
    }
    let m = read(reg, mmu, mem);
    reg.a = reg.a | m;
    let a = reg.a;
    reg.assign_nz(a);
}

/// `PHA`: push accumulator.
pub fn pha(reg: &mut Reg, ctx: &mut Context, mmu: &mut Mmu, mem: Operand)
    requires
        op_ok(Op::Pha, *old(reg), mem, *old(ctx)),
    ensures
        (*final(reg), final(mmu)@, *final(ctx)) == op_effect(Op::Pha, *old(reg), old(mmu)@, mem, *old(ctx)),
{
    proof {
        reveal(op_effect);
    }
    let a = reg.a;
    reg.push(mmu, a);
}

/// `PHP`: push status.
pub fn php(reg: &mut Reg, ctx: &mut Context, mmu: &mut Mmu, mem: Operand)
    requires
        op_ok(Op::Php, *old(reg), mem, *old(ctx)),
    ensures
        (*final(reg), final(mmu)@, *final(ctx)) == op_effect(Op::Php, *old(reg), old(mmu)@, mem, *old(ctx)),
{
    proof {
        reveal(op_effect);
    }
    let p = reg.p;
    reg.push(mmu, p);
}

/// `PLA`: pull accumulator.
pub fn pla(reg: &mut Reg, ctx: &mut Context, mmu: &mut Mmu, mem: Operand)
    requires
        op_ok(Op::Pla, *old(reg), mem, *old(ctx)),
    ensures
        (*final(reg), final(mmu)@, *final(ctx)) == op_effect(Op::Pla, *old(reg), old(mmu)@, mem, *old(ctx)),
{
    proof {
        reveal(op_effect);
    }
    let v = reg.pop(mmu);
    reg.a = v;
    reg.assign_nz(v);
}

/// `PLP`: pull status.
pub fn plp(reg: &mut Reg, ctx: &mut Context, mmu: &mut Mmu, mem: Operand)
    requires
        op_ok(Op::Plp, *old(reg), mem, *old(ctx)),
    ensures
        (*final(reg), final(mmu)@, *final(ctx)) == op_effect(Op::Plp, *old(reg), old(mmu)@, mem, *old(ctx)),
{
    proof {
        reveal(op_effect);
    }
    reg.p = reg.pop(mmu);
}

/// `ROL`: rotate the operand left through carry.
pub fn rol(reg: &mut Reg, ctx: &mut Context, mmu: &mut Mmu, mem: Operand)
    requires
        op_ok(Op::Rol, *old(reg), mem, *old(ctx)),
    ensures
        (*final(reg), final(mmu)@, *final(ctx)) == op_effect(Op::Rol, *old(reg), old(mmu)@, mem, *old(ctx)),
{
    proof {
        reveal(op_effect);
    }
    let (v, o) = overflowing_shl1(read(reg, mmu, mem));
    let c = carry(reg);
    assert(v % 2 == 0 ==> v | c == v + c) by (bit_vector)
        requires c <= 1u8;
    let v = v | c;
    write(reg, mmu, mem, v);
    reg.assign_nz(v);
    reg.assign_c(o);
}

/// `ROR`: rotate the operand right through carry.
pub fn ror(reg: &mut Reg, ctx: &mut Context, mmu: &mut Mmu, mem: Operand)
    requires
        op_ok(Op::Ror, *old(reg), mem, *old(ctx)),
    ensures
        (*final(reg), final(mmu)@, *final(ctx)) == op_effect(Op::Ror, *old(reg), old(mmu)@, mem, *old(ctx)),
{
    proof {
        reveal(op_effect);
    }
    let (v, o) = overflowing_shr1(read(reg, mmu, mem));
    let c = carry(reg);
    assert(v < 128 ==> v | (c << 7u8) == v + c * 128) by (bit_vector)
        requires c <= 1u8;
    let v = v | (c << 7);
    write(reg, mmu, mem, v);
    reg.assign_nz(v);
    reg.assign_c(o);
}

/// `RTI`: return from interrupt: pull status, then the program counter.
pub fn rti(reg: &mut Reg, ctx: &mut Context, mmu: &mut Mmu, mem: Operand)
    requires
        op_ok(Op::Rti, *old(reg), mem, *old(ctx)),
    ensures
        (*final(reg), final(mmu)@, *final(ctx)) == op_effect(Op::Rti, *old(reg), old(mmu)@, mem, *old(ctx)),
{
    proof {
        reveal(op_effect);
    }
    reg.p = reg.pop(mmu);
    reg.pc = reg.pop16(mmu);
}

/// `RTS`: return from subroutine: pull the program counter.
pub fn rts(reg: &mut Reg, ctx: &mut Context, mmu: &mut Mmu, mem: Operand)
    requires
        op_ok(Op::Rts, *old(reg), mem, *old(ctx)),
    ensures
        (*final(reg), final(mmu)@, *final(ctx)) == op_effect(Op::Rts, *old(reg), old(mmu)@, mem, *old(ctx)),
{
    proof {
        reveal(op_effect);
    }
    reg.pc = reg.pop16(mmu);
}

/// `SBC`: subtract with borrow.
pub fn sbc(reg: &mut Reg, ctx: &mut Context, mmu: &mut Mmu, mem: Operand)
    requires
        op_ok(Op::Sbc, *old(reg), mem, *old(ctx)),
    ensures
        (*final(reg), final(mmu)@, *final(ctx)) == op_effect(Op::Sbc, *old(reg), old(mmu)@, mem, *old(ctx)),
{
    proof {
        reveal(op_effect);
    }
    let m = read(reg, mmu, mem);
    let c = carry(reg);
    proof {
        lemma_sub_with_carry(reg.a, m, c);
    }
    let (v, o1) = overflowing_sub(reg.a, m);
    let (v, o2) = overflowing_sub(v, c);
    reg.a = v;
    reg.assign_nz(v);
    reg.assign_c(o1 || o2);
}

/// `SEC`: set carry.
pub fn sec(reg: &mut Reg, ctx: &mut Context, mmu: &mut Mmu, mem: Operand)
    requires
        op_ok(Op::Sec, *old(reg), mem, *old(ctx)),
    ensures
        (*final(reg), final(mmu)@, *final(ctx)) == op_effect(Op::Sec, *old(reg), old(mmu)@, mem, *old(ctx)),
{
    proof {
        reveal(op_effect);
    }
    reg.assign_c(true);
}

/// `SED`: set decimal mode.
pub fn sed(reg: &mut Reg, ctx: &mut Context, mmu: &mut Mmu, mem: Operand)
    requires
        op_ok(Op::Sed, *old(reg), mem, *old(ctx)),
    ensures
        (*final(reg), final(mmu)@, *final(ctx)) == op_effect(Op::Sed, *old(reg), old(mmu)@, mem, *old(ctx)),
{
    proof {
        reveal(op_effect);
    }
    reg.set_flag(D);
}

/// `SEI`: set interrupt disable.
pub fn sei(reg: &mut Reg, ctx: &mut Context, mmu: &mut Mmu, mem: Operand)
    requires
        op_ok(Op::Sei, *old(reg), mem, *old(ctx)),
    ensures
        (*final(reg), final(mmu)@, *final(ctx)) == op_effect(Op::Sei, *old(reg), old(mmu)@, mem, *old(ctx)),
{
    proof {
        reveal(op_effect);
    }
    reg.set_flag(I);
}

/// `STA`: store accumulator.
pub fn sta(reg: &mut Reg, ctx: &mut Context, mmu: &mut Mmu, mem: Operand)
    requires
        op_ok(Op::Sta, *old(reg), mem, *old(ctx)),
    ensures
        (*final(reg), final(mmu)@, *final(ctx)) == op_effect(Op::Sta, *old(reg), old(mmu)@, mem, *old(ctx)),
{
    proof {
        reveal(op_effect);
    }
    let a = reg.a;
    write(reg, mmu, mem, a);
}

/// `STX`: store X.
pub fn stx(reg: &mut Reg, ctx: &mut Context, mmu: &mut Mmu, mem: Operand)
    requires
        op_ok(Op::Stx, *old(reg), mem, *old(ctx)),
    ensures
        (*final(reg), final(mmu)@, *final(ctx)) == op_effect(Op::Stx, *old(reg), old(mmu)@, mem, *old(ctx)),
{
    proof {
        reveal(op_effect);
    }
    let x = reg.x;
    write(reg, mmu, mem, x);
}

/// `STY`: store Y.
pub fn sty(reg: &mut Reg, ctx: &mut Context, mmu: &mut Mmu, mem: Operand)
    requires
        op_ok(Op::Sty, *old(reg), mem, *old(ctx)),
    ensures
        (*final(reg), final(mmu)@, *final(ctx)) == op_effect(Op::Sty, *old(reg), old(mmu)@, mem, *old(ctx)),
{
    proof {
        reveal(op_effect);
    }
    let y = reg.y;
    write(reg, mmu, mem, y);
}

/// `TAX`: transfer accumulator to X.
pub fn tax(reg: &mut Reg, ctx: &mut Context, mmu: &mut Mmu, mem: Operand)
    requires
        op_ok(Op::Tax, *old(reg), mem, *old(ctx)),
    ensures
        (*final(reg), final(mmu)@, *final(ctx)) == op_effect(Op::Tax, *old(reg), old(mmu)@, mem, *old(ctx)),
{
    proof {
        reveal(op_effect);
    }
    reg.x = reg.a;
    let x = reg.x;
    reg.assign_nz(x);
}

/// `TAY`: transfer accumulator to Y.
pub fn tay(reg: &mut Reg, ctx: &mut Context, mmu: &mut Mmu, mem: Operand)
    requires
        op_ok(Op::Tay, *old(reg), mem, *old(ctx)),
    ensures
        (*final(reg), final(mmu)@, *final(ctx)) == op_effect(Op::Tay, *old(reg), old(mmu)@, mem, *old(ctx)),
{
    proof {
        reveal(op_effect);
    }
    reg.y = reg.a;
    let y = reg.y;
    reg.assign_nz(y);
}

/// `TSX`: transfer stack pointer to X.
pub fn tsx(reg: &mut Reg, ctx: &mut Context, mmu: &mut Mmu, mem: Operand)
    requires
        op_ok(Op::Tsx, *old(reg), mem, *old(ctx)),
    ensures
        (*final(reg), final(mmu)@, *final(ctx)) == op_effect(Op::Tsx, *old(reg), old(mmu)@, mem, *old(ctx)),
{
    proof {
        reveal(op_effect);
    }
    reg.x = reg.s;
    let x = reg.x;
    reg.assign_nz(x);
}

/// `TXA`: transfer X to accumulator.
pub fn txa(reg: &mut Reg, ctx: &mut Context, mmu: &mut Mmu, mem: Operand)
    requires
        op_ok(Op::Txa, *old(reg), mem, *old(ctx)),
    ensures
        (*final(reg), final(mmu)@, *final(ctx)) == op_effect(Op::Txa, *old(reg), old(mmu)@, mem, *old(ctx)),
{
    proof {
        reveal(op_effect);
    }
    reg.a = reg.x;
    let a = reg.a;
    reg.assign_nz(a);
}

/// `TXS`: transfer X to stack pointer.
pub fn txs(reg: &mut Reg, ctx: &mut Context, mmu: &mut Mmu, mem: Operand)
    requires
        op_ok(Op::Txs, *old(reg), mem, *old(ctx)),
    ensures
        (*final(reg), final(mmu)@, *final(ctx)) == op_effect(Op::Txs, *old(reg), old(mmu)@, mem, *old(ctx)),
{
    proof {
        reveal(op_effect);
    }
    reg.s = reg.x;
    let s = reg.s;
    reg.assign_nz(s);
}

/// `TYA`: transfer Y to accumulator.
pub fn tya(reg: &mut Reg, ctx: &mut Context, mmu: &mut Mmu, mem: Operand)
    requires
        op_ok(Op::Tya, *old(reg), mem, *old(ctx)),
    ensures
        (*final(reg), final(mmu)@, *final(ctx)) == op_effect(Op::Tya, *old(reg), old(mmu)@, mem, *old(ctx)),
{
    proof {
        reveal(op_effect);
    }
    reg.a = reg.y;
    let a = reg.a;
    reg.assign_nz(a);
}

} // verus!
