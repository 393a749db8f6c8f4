//! What each instruction does, stated directly over the registers, the
//! status bits and memory, for every input.
use vstd::prelude::*;

use crate::cpu::{branch_cycles, branch_target, dec8, inc8, pop16_spec, pop_spec, push16_spec, push_spec, with_flag, with_nz, Context, Reg, C, N, V, Z};
use crate::exec::{
    decodes_at, execute_ok, execute_spec, op_from_name, resolve_ok, resolve_spec, step_ok, step_spec,
};
use crate::inst::{Addr, Inst};
use crate::mmu::{word_at, MEM_SIZE};
use crate::ops::{branch, modify, can_read, can_write, op_effect, operand_value, Op, Operand};

verus! {

/// Whether the bits of `mask` are on in the status byte `p`.
pub open spec fn bit(p: u8, mask: u8) -> bool {
    p & mask != 0
}

/// The incoming carry as a number, 0 or 1.
pub open spec fn carry_in(p: u8) -> int {
    if p & 0x01 != 0 { 1 } else { 0 }
}

/// Status bits other than negative, zero and carry.
pub open spec fn rest_nzc(p: u8) -> u8 {
    p & 0x7c
}

/// Status bits other than negative and zero.
pub open spec fn rest_nz(p: u8) -> u8 {
    p & 0x7d
}

/// Setting negative and zero from `v` sets N exactly for `v >= 0x80`, Z
/// exactly for `v == 0`, and keeps every other bit.
proof fn lemma_nz_bits(p: u8, v: u8)
    ensures
        bit(with_nz(p, v), N) == (v >= 0x80),
        bit(with_nz(p, v), Z) == (v == 0),
        rest_nz(with_nz(p, v)) == rest_nz(p),
        with_nz(p, v) & 0x01 == p & 0x01,
{
    assert(((((p & !0x80u8) & !0x02u8) | 0x02u8) & 0x80u8 != 0) == false) by (bit_vector);
    assert(bit(with_nz(p, v), N) == (v >= 0x80)) by (bit_vector);
    assert(bit(with_nz(p, v), Z) == (v == 0)) by (bit_vector);
    assert(rest_nz(with_nz(p, v)) == rest_nz(p)) by (bit_vector);
    assert(with_nz(p, v) & 0x01 == p & 0x01) by (bit_vector);
}

/// Setting negative, zero and carry, in either order.
proof fn lemma_nzc_bits(p: u8, v: u8, carry: bool)
    ensures
        with_flag(with_nz(p, v), C, carry) == with_nz(with_flag(p, C, carry), v),
        bit(with_flag(with_nz(p, v), C, carry), C) == carry,
        bit(with_flag(with_nz(p, v), C, carry), N) == (v >= 0x80),
        bit(with_flag(with_nz(p, v), C, carry), Z) == (v == 0),
        rest_nzc(with_flag(with_nz(p, v), C, carry)) == rest_nzc(p),
{
    assert(with_flag(with_nz(p, v), C, carry) == with_nz(with_flag(p, C, carry), v)) by (bit_vector);
    assert(bit(with_flag(with_nz(p, v), C, carry), C) == carry) by (bit_vector);
    assert(bit(with_flag(with_nz(p, v), C, carry), N) == (v >= 0x80)) by (bit_vector);
    assert(bit(with_flag(with_nz(p, v), C, carry), Z) == (v == 0)) by (bit_vector);
    assert(rest_nzc(with_flag(with_nz(p, v), C, carry)) == rest_nzc(p)) by (bit_vector);
}

/// The carry bit is 0 or 1, and `carry_in` is its value.
proof fn lemma_carry_in(p: u8)
    ensures
        (p & C) as int == carry_in(p),
{
    assert((p & 0x01u8) == (if p & 0x01u8 != 0 { 1u8 } else { 0u8 })) by (bit_vector);
}

/// `ADC`: the accumulator becomes `A + M + carry` modulo 256; carry is set
/// exactly when that sum exceeds 0xff; N and Z follow the new accumulator;
/// nothing else changes.
pub proof fn law_adc(reg: Reg, mem: Seq<u8>, o: Operand, ctx: Context)
    requires
        can_read(o),
    ensures
        ({
            let (r, m2, c2) = op_effect(Op::Adc, reg, mem, o, ctx);
            let sum = reg.a + operand_value(reg, mem, o) + carry_in(reg.p);
            &&& r.a == sum % 256
            &&& bit(r.p, C) == (sum > 0xff)
            &&& bit(r.p, N) == (r.a >= 0x80)
            &&& bit(r.p, Z) == (r.a == 0)
            &&& rest_nzc(r.p) == rest_nzc(reg.p)
            &&& r.x == reg.x && r.y == reg.y && r.s == reg.s && r.pc == reg.pc
            &&& m2 == mem && c2 == ctx
        }),
{
    reveal(op_effect);
    let m = operand_value(reg, mem, o);
    let sum = reg.a + m + (reg.p & C);
    lemma_carry_in(reg.p);
    lemma_nzc_bits(reg.p, (sum % 256) as u8, sum > 255);
}

/// `SBC`: the accumulator becomes `A - M - carry` modulo 256; carry is set
/// exactly when that difference is below zero (a borrow out of the whole
/// subtraction); N and Z follow the new accumulator; nothing else changes.
pub proof fn law_sbc(reg: Reg, mem: Seq<u8>, o: Operand, ctx: Context)
    requires
        can_read(o),
    ensures
        ({
            let (r, m2, c2) = op_effect(Op::Sbc, reg, mem, o, ctx);
            let diff = reg.a - operand_value(reg, mem, o) - carry_in(reg.p);
            &&& r.a == (diff + 512) % 256
            &&& bit(r.p, C) == (diff < 0)
            &&& bit(r.p, N) == (r.a >= 0x80)
            &&& bit(r.p, Z) == (r.a == 0)
            &&& rest_nzc(r.p) == rest_nzc(reg.p)
            &&& r.x == reg.x && r.y == reg.y && r.s == reg.s && r.pc == reg.pc
            &&& m2 == mem && c2 == ctx
        }),
{
    reveal(op_effect);
    let m = operand_value(reg, mem, o);
    let diff = reg.a - m - (reg.p & C);
    lemma_carry_in(reg.p);
    lemma_nzc_bits(reg.p, ((diff + 512) % 256) as u8, diff < 0);
}

/// A pop, in plain arithmetic.
proof fn lemma_pop(reg: Reg, mem: Seq<u8>)
    ensures
        pop_spec(reg, mem).0 == (Reg { s: ((reg.s + 1) % 256) as u8, ..reg }),
        pop_spec(reg, mem).1 == mem[0x100 + (reg.s + 1) % 256],
{
}

/// A word pop, in plain arithmetic.
proof fn lemma_pop16(reg: Reg, mem: Seq<u8>)
    ensures
        pop16_spec(reg, mem).0 == (Reg { s: ((reg.s + 2) % 256) as u8, ..reg }),
        pop16_spec(reg, mem).1 == mem[0x100 + (reg.s + 2) % 256] * 256 + mem[0x100 + (reg.s + 1) % 256],
{
    let h = mem[0x100 + (reg.s + 2) % 256];
    let l = mem[0x100 + (reg.s + 1) % 256];
    assert(0 <= h * 256 + l < 0x10000) by (nonlinear_arith)
        requires
            0 <= h < 256,
            0 <= l < 256,
    ;
}

/// A push, in plain arithmetic.
proof fn lemma_push(reg: Reg, mem: Seq<u8>, v: u8)
    ensures
        push_spec(reg, mem, v).0 == (Reg { s: ((reg.s + 255) % 256) as u8, ..reg }),
        push_spec(reg, mem, v).1 == mem.update(0x100 + reg.s, v),
{
}

/// Where a relative branch lands, and what it costs, in plain arithmetic.
proof fn lemma_branch_target(pc: u16, off: u8)
    ensures
        ({
            let target = (pc + (if off < 0x80 { off as int } else { off - 0x100 }) + 0x10000) % 0x10000;
            &&& branch_target(pc, off) == target
            &&& branch_cycles(pc, branch_target(pc, off)) == (if pc / 0x100 != target / 0x100 { 2int } else { 1int })
        }),
{
}

/// `CMP` compares the accumulator with the operand `M`: Z is set exactly when they are equal, C exactly when the accumulator is below `M`, N is bit 7 of their difference modulo 256; no register but the status byte, and no other status bit, changes.
pub proof fn law_compare_accumulator(reg: Reg, mem: Seq<u8>, o: Operand, ctx: Context)
    requires
        can_read(o),
    ensures
        ({
            let (r, m2, c2) = op_effect(Op::Cmp, reg, mem, o, ctx);
            let v = reg.a;
            let m = operand_value(reg, mem, o);
            &&& bit(r.p, Z) == (v == m)
            &&& bit(r.p, C) == (v < m)
            &&& bit(r.p, N) == ((v - m + 256) % 256 >= 0x80)
            &&& rest_nzc(r.p) == rest_nzc(reg.p)
            &&& r.a == reg.a && r.x == reg.x && r.y == reg.y && r.s == reg.s && r.pc == reg.pc
            &&& m2 == mem && c2 == ctx
        }),
{
    reveal(op_effect);
    let v = reg.a;
    let m = operand_value(reg, mem, o);
    lemma_nzc_bits(reg.p, ((v - m + 256) % 256) as u8, v < m);
}

/// `CPX` compares X with the operand `M`: Z is set exactly when they are equal, C exactly when X is below `M`, N is bit 7 of their difference modulo 256; no register but the status byte, and no other status bit, changes.
pub proof fn law_cpx(reg: Reg, mem: Seq<u8>, o: Operand, ctx: Context)
    requires
        can_read(o),
    ensures
        ({
            let (r, m2, c2) = op_effect(Op::Cpx, reg, mem, o, ctx);
            let v = reg.x;
            let m = operand_value(reg, mem, o);
            &&& bit(r.p, Z) == (v == m)
            &&& bit(r.p, C) == (v < m)
            &&& bit(r.p, N) == ((v - m + 256) % 256 >= 0x80)
            &&& rest_nzc(r.p) == rest_nzc(reg.p)
            &&& r.a == reg.a && r.x == reg.x && r.y == reg.y && r.s == reg.s && r.pc == reg.pc
            &&& m2 == mem && c2 == ctx
        }),
{
    reveal(op_effect);
    let v = reg.x;
    let m = operand_value(reg, mem, o);
    lemma_nzc_bits(reg.p, ((v - m + 256) % 256) as u8, v < m);
}

/// `CPY` compares Y with the operand `M`: Z is set exactly when they are equal, C exactly when Y is below `M`, N is bit 7 of their difference modulo 256; no register but the status byte, and no other status bit, changes.
pub proof fn law_cpy(reg: Reg, mem: Seq<u8>, o: Operand, ctx: Context)
    requires
        can_read(o),
    ensures
        ({
            let (r, m2, c2) = op_effect(Op::Cpy, reg, mem, o, ctx);
            let v = reg.y;
            let m = operand_value(reg, mem, o);
            &&& bit(r.p, Z) == (v == m)
            &&& bit(r.p, C) == (v < m)
            &&& bit(r.p, N) == ((v - m + 256) % 256 >= 0x80)
            &&& rest_nzc(r.p) == rest_nzc(reg.p)
            &&& r.a == reg.a && r.x == reg.x && r.y == reg.y && r.s == reg.s && r.pc == reg.pc
            &&& m2 == mem && c2 == ctx
        }),
{
    reveal(op_effect);
    let v = reg.y;
    let m = operand_value(reg, mem, o);
    lemma_nzc_bits(reg.p, ((v - m + 256) % 256) as u8, v < m);
}

/// `LDA` loads the operand into the accumulator; N and Z follow the new value; nothing else changes.
pub proof fn law_lda(reg: Reg, mem: Seq<u8>, o: Operand, ctx: Context)
    requires
        can_read(o),
    ensures
        ({
            let (r, m2, c2) = op_effect(Op::Lda, reg, mem, o, ctx);
            &&& r.a == operand_value(reg, mem, o)
            &&& bit(r.p, N) == (r.a >= 0x80)
            &&& bit(r.p, Z) == (r.a == 0)
            &&& rest_nz(r.p) == rest_nz(reg.p)
            &&& r.x == reg.x && r.y == reg.y && r.s == reg.s && r.pc == reg.pc
            &&& m2 == mem && c2 == ctx
        }),
{
    reveal(op_effect);
    let (r, m2, c2) = op_effect(Op::Lda, reg, mem, o, ctx);
    lemma_nz_bits(reg.p, r.a);
}

/// `LDX` loads the operand into X; N and Z follow the new value; nothing else changes.
pub proof fn law_ldx(reg: Reg, mem: Seq<u8>, o: Operand, ctx: Context)
    requires
        can_read(o),
    ensures
        ({
            let (r, m2, c2) = op_effect(Op::Ldx, reg, mem, o, ctx);
            &&& r.x == operand_value(reg, mem, o)
            &&& bit(r.p, N) == (r.x >= 0x80)
            &&& bit(r.p, Z) == (r.x == 0)
            &&& rest_nz(r.p) == rest_nz(reg.p)
            &&& r.a == reg.a && r.y == reg.y && r.s == reg.s && r.pc == reg.pc
            &&& m2 == mem && c2 == ctx
        }),
{
    reveal(op_effect);
    let (r, m2, c2) = op_effect(Op::Ldx, reg, mem, o, ctx);
    lemma_nz_bits(reg.p, r.x);
}

/// `LDY` loads the operand into Y; N and Z follow the new value; nothing else changes.
pub proof fn law_ldy(reg: Reg, mem: Seq<u8>, o: Operand, ctx: Context)
    requires
        can_read(o),
    ensures
        ({
            let (r, m2, c2) = op_effect(Op::Ldy, reg, mem, o, ctx);
            &&& r.y == operand_value(reg, mem, o)
            &&& bit(r.p, N) == (r.y >= 0x80)
            &&& bit(r.p, Z) == (r.y == 0)
            &&& rest_nz(r.p) == rest_nz(reg.p)
            &&& r.a == reg.a && r.x == reg.x && r.s == reg.s && r.pc == reg.pc
            &&& m2 == mem && c2 == ctx
        }),
{
    reveal(op_effect);
    let (r, m2, c2) = op_effect(Op::Ldy, reg, mem, o, ctx);
    lemma_nz_bits(reg.p, r.y);
}

/// `AND` leaves `A & M` in the accumulator; N and Z follow the new value; nothing else changes.
pub proof fn law_and(reg: Reg, mem: Seq<u8>, o: Operand, ctx: Context)
    requires
        can_read(o),
    ensures
        ({
            let (r, m2, c2) = op_effect(Op::And, reg, mem, o, ctx);
            &&& r.a == reg.a & operand_value(reg, mem, o)
            &&& bit(r.p, N) == (r.a >= 0x80)
            &&& bit(r.p, Z) == (r.a == 0)
            &&& rest_nz(r.p) == rest_nz(reg.p)
            &&& r.x == reg.x && r.y == reg.y && r.s == reg.s && r.pc == reg.pc
            &&& m2 == mem && c2 == ctx
        }),
{
    reveal(op_effect);
    let (r, m2, c2) = op_effect(Op::And, reg, mem, o, ctx);
    lemma_nz_bits(reg.p, r.a);
}

/// `ORA` leaves `A | M` in the accumulator; N and Z follow the new value; nothing else changes.
pub proof fn law_ora(reg: Reg, mem: Seq<u8>, o: Operand, ctx: Context)
    requires
        can_read(o),
    ensures
        ({
            let (r, m2, c2) = op_effect(Op::Ora, reg, mem, o, ctx);
            &&& r.a == reg.a | operand_value(reg, mem, o)
            &&& bit(r.p, N) == (r.a >= 0x80)
            &&& bit(r.p, Z) == (r.a == 0)
            &&& rest_nz(r.p) == rest_nz(reg.p)
            &&& r.x == reg.x && r.y == reg.y && r.s == reg.s && r.pc == reg.pc
            &&& m2 == mem && c2 == ctx
        }),
{
    reveal(op_effect);
    let (r, m2, c2) = op_effect(Op::Ora, reg, mem, o, ctx);
    lemma_nz_bits(reg.p, r.a);
}

/// `EOR` leaves `A ^ M` in the accumulator; N and Z follow the new value; nothing else changes.
pub proof fn law_eor(reg: Reg, mem: Seq<u8>, o: Operand, ctx: Context)
    requires
        can_read(o),
    ensures
        ({
            let (r, m2, c2) = op_effect(Op::Eor, reg, mem, o, ctx);
            &&& r.a == reg.a ^ operand_value(reg, mem, o)
            &&& bit(r.p, N) == (r.a >= 0x80)
            &&& bit(r.p, Z) == (r.a == 0)
            &&& rest_nz(r.p) == rest_nz(reg.p)
            &&& r.x == reg.x && r.y == reg.y && r.s == reg.s && r.pc == reg.pc
            &&& m2 == mem && c2 == ctx
        }),
{
    reveal(op_effect);
    let (r, m2, c2) = op_effect(Op::Eor, reg, mem, o, ctx);
    lemma_nz_bits(reg.p, r.a);
}

/// `TAX` copies the accumulator to X; N and Z follow the new value; nothing else changes.
pub proof fn law_tax(reg: Reg, mem: Seq<u8>, o: Operand, ctx: Context)
    ensures
        ({
            let (r, m2, c2) = op_effect(Op::Tax, reg, mem, o, ctx);
            &&& r.x == reg.a
            &&& bit(r.p, N) == (r.x >= 0x80)
            &&& bit(r.p, Z) == (r.x == 0)
            &&& rest_nz(r.p) == rest_nz(reg.p)
            &&& r.a == reg.a && r.y == reg.y && r.s == reg.s && r.pc == reg.pc
            &&& m2 == mem && c2 == ctx
        }),
{
    reveal(op_effect);
    let (r, m2, c2) = op_effect(Op::Tax, reg, mem, o, ctx);
    lemma_nz_bits(reg.p, r.x);
}

/// `TAY` copies the accumulator to Y; N and Z follow the new value; nothing else changes.
pub proof fn law_tay(reg: Reg, mem: Seq<u8>, o: Operand, ctx: Context)
    ensures
        ({
            let (r, m2, c2) = op_effect(Op::Tay, reg, mem, o, ctx);
            &&& r.y == reg.a
            &&& bit(r.p, N) == (r.y >= 0x80)
            &&& bit(r.p, Z) == (r.y == 0)
            &&& rest_nz(r.p) == rest_nz(reg.p)
            &&& r.a == reg.a && r.x == reg.x && r.s == reg.s && r.pc == reg.pc
            &&& m2 == mem && c2 == ctx
        }),
{
    reveal(op_effect);
    let (r, m2, c2) = op_effect(Op::Tay, reg, mem, o, ctx);
    lemma_nz_bits(reg.p, r.y);
}

/// `TSX` copies the stack pointer to X; N and Z follow the new value; nothing else changes.
pub proof fn law_tsx(reg: Reg, mem: Seq<u8>, o: Operand, ctx: Context)
    ensures
        ({
            let (r, m2, c2) = op_effect(Op::Tsx, reg, mem, o, ctx);
            &&& r.x == reg.s
            &&& bit(r.p, N) == (r.x >= 0x80)
            &&& bit(r.p, Z) == (r.x == 0)
            &&& rest_nz(r.p) == rest_nz(reg.p)
            &&& r.a == reg.a && r.y == reg.y && r.s == reg.s && r.pc == reg.pc
            &&& m2 == mem && c2 == ctx
        }),
{
    reveal(op_effect);
    let (r, m2, c2) = op_effect(Op::Tsx, reg, mem, o, ctx);
    lemma_nz_bits(reg.p, r.x);
}

/// `TXA` copies X to the accumulator; N and Z follow the new value; nothing else changes.
pub proof fn law_txa(reg: Reg, mem: Seq<u8>, o: Operand, ctx: Context)
    ensures
        ({
            let (r, m2, c2) = op_effect(Op::Txa, reg, mem, o, ctx);
            &&& r.a == reg.x
            &&& bit(r.p, N) == (r.a >= 0x80)
            &&& bit(r.p, Z) == (r.a == 0)
            &&& rest_nz(r.p) == rest_nz(reg.p)
            &&& r.x == reg.x && r.y == reg.y && r.s == reg.s && r.pc == reg.pc
            &&& m2 == mem && c2 == ctx
        }),
{
    reveal(op_effect);
    let (r, m2, c2) = op_effect(Op::Txa, reg, mem, o, ctx);
    lemma_nz_bits(reg.p, r.a);
}

/// `TYA` copies Y to the accumulator; N and Z follow the new value; nothing else changes.
pub proof fn law_tya(reg: Reg, mem: Seq<u8>, o: Operand, ctx: Context)
    ensures
        ({
            let (r, m2, c2) = op_effect(Op::Tya, reg, mem, o, ctx);
            &&& r.a == reg.y
            &&& bit(r.p, N) == (r.a >= 0x80)
            &&& bit(r.p, Z) == (r.a == 0)
            &&& rest_nz(r.p) == rest_nz(reg.p)
            &&& r.x == reg.x && r.y == reg.y && r.s == reg.s && r.pc == reg.pc
            &&& m2 == mem && c2 == ctx
        }),
{
    reveal(op_effect);
    let (r, m2, c2) = op_effect(Op::Tya, reg, mem, o, ctx);
    lemma_nz_bits(reg.p, r.a);
}

/// `TXS` copies X to the stack pointer; N and Z follow the new value; nothing else changes.
pub proof fn law_txs(reg: Reg, mem: Seq<u8>, o: Operand, ctx: Context)
    ensures
        ({
            let (r, m2, c2) = op_effect(Op::Txs, reg, mem, o, ctx);
            &&& r.s == reg.x
            &&& bit(r.p, N) == (r.s >= 0x80)
            &&& bit(r.p, Z) == (r.s == 0)
            &&& rest_nz(r.p) == rest_nz(reg.p)
            &&& r.a == reg.a && r.x == reg.x && r.y == reg.y && r.pc == reg.pc
            &&& m2 == mem && c2 == ctx
        }),
{
    reveal(op_effect);
    let (r, m2, c2) = op_effect(Op::Txs, reg, mem, o, ctx);
    lemma_nz_bits(reg.p, r.s);
}

/// `INX` adds one to X, wrapping from 0xff to 0; N and Z follow the new value; nothing else changes.
pub proof fn law_inx(reg: Reg, mem: Seq<u8>, o: Operand, ctx: Context)
    ensures
        ({
            let (r, m2, c2) = op_effect(Op::Inx, reg, mem, o, ctx);
            &&& r.x == (reg.x + 1) % 256
            &&& bit(r.p, N) == (r.x >= 0x80)
            &&& bit(r.p, Z) == (r.x == 0)
            &&& rest_nz(r.p) == rest_nz(reg.p)
            &&& r.a == reg.a && r.y == reg.y && r.s == reg.s && r.pc == reg.pc
            &&& m2 == mem && c2 == ctx
        }),
{
    reveal(op_effect);
    let (r, m2, c2) = op_effect(Op::Inx, reg, mem, o, ctx);
    lemma_nz_bits(reg.p, r.x);
}

/// `INY` adds one to Y, wrapping from 0xff to 0; N and Z follow the new value; nothing else changes.
pub proof fn law_iny(reg: Reg, mem: Seq<u8>, o: Operand, ctx: Context)
    ensures
        ({
            let (r, m2, c2) = op_effect(Op::Iny, reg, mem, o, ctx);
            &&& r.y == (reg.y + 1) % 256
            &&& bit(r.p, N) == (r.y >= 0x80)
            &&& bit(r.p, Z) == (r.y == 0)
            &&& rest_nz(r.p) == rest_nz(reg.p)
            &&& r.a == reg.a && r.x == reg.x && r.s == reg.s && r.pc == reg.pc
            &&& m2 == mem && c2 == ctx
        }),
{
    reveal(op_effect);
    let (r, m2, c2) = op_effect(Op::Iny, reg, mem, o, ctx);
    lemma_nz_bits(reg.p, r.y);
}

/// `DEX` takes one from X, wrapping from 0 to 0xff; N and Z follow the new value; nothing else changes.
pub proof fn law_dex(reg: Reg, mem: Seq<u8>, o: Operand, ctx: Context)
    ensures
        ({
            let (r, m2, c2) = op_effect(Op::Dex, reg, mem, o, ctx);
            &&& r.x == (reg.x + 255) % 256
            &&& bit(r.p, N) == (r.x >= 0x80)
            &&& bit(r.p, Z) == (r.x == 0)
            &&& rest_nz(r.p) == rest_nz(reg.p)
            &&& r.a == reg.a && r.y == reg.y && r.s == reg.s && r.pc == reg.pc
            &&& m2 == mem && c2 == ctx
        }),
{
    reveal(op_effect);
    let (r, m2, c2) = op_effect(Op::Dex, reg, mem, o, ctx);
    lemma_nz_bits(reg.p, r.x);
}

/// `DEY` takes one from Y, wrapping from 0 to 0xff; N and Z follow the new value; nothing else changes.
pub proof fn law_dey(reg: Reg, mem: Seq<u8>, o: Operand, ctx: Context)
    ensures
        ({
            let (r, m2, c2) = op_effect(Op::Dey, reg, mem, o, ctx);
            &&& r.y == (reg.y + 255) % 256
            &&& bit(r.p, N) == (r.y >= 0x80)
            &&& bit(r.p, Z) == (r.y == 0)
            &&& rest_nz(r.p) == rest_nz(reg.p)
            &&& r.a == reg.a && r.x == reg.x && r.s == reg.s && r.pc == reg.pc
            &&& m2 == mem && c2 == ctx
        }),
{
    reveal(op_effect);
    let (r, m2, c2) = op_effect(Op::Dey, reg, mem, o, ctx);
    lemma_nz_bits(reg.p, r.y);
}

/// `CLC` clears the carry flag (bit 0x01) and keeps every other status bit and register.
pub proof fn law_clc(reg: Reg, mem: Seq<u8>, o: Operand, ctx: Context)
    ensures
        ({
            let (r, m2, c2) = op_effect(Op::Clc, reg, mem, o, ctx);
            &&& bit(r.p, 0x01u8) == false
            &&& r.p & !0x01u8 == reg.p & !0x01u8
            &&& r.a == reg.a && r.x == reg.x && r.y == reg.y && r.s == reg.s && r.pc == reg.pc
            &&& m2 == mem && c2 == ctx
        }),
{
    reveal(op_effect);
    let p = reg.p;
    assert(bit(with_flag(p, 0x01u8, false), 0x01u8) == false) by (bit_vector);
    assert(with_flag(p, 0x01u8, false) & !0x01u8 == p & !0x01u8) by (bit_vector);
}

/// `SEC` sets the carry flag (bit 0x01) and keeps every other status bit and register.
pub proof fn law_sec(reg: Reg, mem: Seq<u8>, o: Operand, ctx: Context)
    ensures
        ({
            let (r, m2, c2) = op_effect(Op::Sec, reg, mem, o, ctx);
            &&& bit(r.p, 0x01u8) == true
            &&& r.p & !0x01u8 == reg.p & !0x01u8
            &&& r.a == reg.a && r.x == reg.x && r.y == reg.y && r.s == reg.s && r.pc == reg.pc
            &&& m2 == mem && c2 == ctx
        }),
{
    reveal(op_effect);
    let p = reg.p;
    assert(bit(with_flag(p, 0x01u8, true), 0x01u8) == true) by (bit_vector);
    assert(with_flag(p, 0x01u8, true) & !0x01u8 == p & !0x01u8) by (bit_vector);
}

/// `CLI` clears the interrupt-disable flag (bit 0x04) and keeps every other status bit and register.
pub proof fn law_cli(reg: Reg, mem: Seq<u8>, o: Operand, ctx: Context)
    ensures
        ({
            let (r, m2, c2) = op_effect(Op::Cli, reg, mem, o, ctx);
            &&& bit(r.p, 0x04u8) == false
            &&& r.p & !0x04u8 == reg.p & !0x04u8
            &&& r.a == reg.a && r.x == reg.x && r.y == reg.y && r.s == reg.s && r.pc == reg.pc
            &&& m2 == mem && c2 == ctx
        }),
{
    reveal(op_effect);
    let p = reg.p;
    assert(bit(with_flag(p, 0x04u8, false), 0x04u8) == false) by (bit_vector);
    assert(with_flag(p, 0x04u8, false) & !0x04u8 == p & !0x04u8) by (bit_vector);
}

/// `SEI` sets the interrupt-disable flag (bit 0x04) and keeps every other status bit and register.
pub proof fn law_sei(reg: Reg, mem: Seq<u8>, o: Operand, ctx: Context)
    ensures
        ({
            let (r, m2, c2) = op_effect(Op::Sei, reg, mem, o, ctx);
            &&& bit(r.p, 0x04u8) == true
            &&& r.p & !0x04u8 == reg.p & !0x04u8
            &&& r.a == reg.a && r.x == reg.x && r.y == reg.y && r.s == reg.s && r.pc == reg.pc
            &&& m2 == mem && c2 == ctx
        }),
{
    reveal(op_effect);
    let p = reg.p;
    assert(bit(with_flag(p, 0x04u8, true), 0x04u8) == true) by (bit_vector);
    assert(with_flag(p, 0x04u8, true) & !0x04u8 == p & !0x04u8) by (bit_vector);
}

/// `CLD` clears the decimal flag (bit 0x08) and keeps every other status bit and register.
pub proof fn law_cld(reg: Reg, mem: Seq<u8>, o: Operand, ctx: Context)
    ensures
        ({
            let (r, m2, c2) = op_effect(Op::Cld, reg, mem, o, ctx);
            &&& bit(r.p, 0x08u8) == false
            &&& r.p & !0x08u8 == reg.p & !0x08u8
            &&& r.a == reg.a && r.x == reg.x && r.y == reg.y && r.s == reg.s && r.pc == reg.pc
            &&& m2 == mem && c2 == ctx
        }),
{
    reveal(op_effect);
    let p = reg.p;
    assert(bit(with_flag(p, 0x08u8, false), 0x08u8) == false) by (bit_vector);
    assert(with_flag(p, 0x08u8, false) & !0x08u8 == p & !0x08u8) by (bit_vector);
}

/// `SED` sets the decimal flag (bit 0x08) and keeps every other status bit and register.
pub proof fn law_sed(reg: Reg, mem: Seq<u8>, o: Operand, ctx: Context)
    ensures
        ({
            let (r, m2, c2) = op_effect(Op::Sed, reg, mem, o, ctx);
            &&& bit(r.p, 0x08u8) == true
            &&& r.p & !0x08u8 == reg.p & !0x08u8
            &&& r.a == reg.a && r.x == reg.x && r.y == reg.y && r.s == reg.s && r.pc == reg.pc
            &&& m2 == mem && c2 == ctx
        }),
{
    reveal(op_effect);
    let p = reg.p;
    assert(bit(with_flag(p, 0x08u8, true), 0x08u8) == true) by (bit_vector);
    assert(with_flag(p, 0x08u8, true) & !0x08u8 == p & !0x08u8) by (bit_vector);
}

/// `CLV` clears the overflow flag (bit 0x40) and keeps every other status bit and register.
pub proof fn law_clv(reg: Reg, mem: Seq<u8>, o: Operand, ctx: Context)
    ensures
        ({
            let (r, m2, c2) = op_effect(Op::Clv, reg, mem, o, ctx);
            &&& bit(r.p, 0x40u8) == false
            &&& r.p & !0x40u8 == reg.p & !0x40u8
            &&& r.a == reg.a && r.x == reg.x && r.y == reg.y && r.s == reg.s && r.pc == reg.pc
            &&& m2 == mem && c2 == ctx
        }),
{
    reveal(op_effect);
    let p = reg.p;
    assert(bit(with_flag(p, 0x40u8, false), 0x40u8) == false) by (bit_vector);
    assert(with_flag(p, 0x40u8, false) & !0x40u8 == p & !0x40u8) by (bit_vector);
}

/// `STA` to memory at `addr` writes the accumulator there; every other byte, every register and the status byte stay as they were.
pub proof fn law_sta(reg: Reg, mem: Seq<u8>, o: Operand, ctx: Context, addr: u16)
    requires
        mem.len() == MEM_SIZE,
        o == Operand::Mem(addr),
        addr < MEM_SIZE,
    ensures
        ({
            let (r, m2, c2) = op_effect(Op::Sta, reg, mem, o, ctx);
            &&& m2.len() == mem.len()
            &&& m2[addr as int] == reg.a
            &&& forall|i: int| 0 <= i < mem.len() && i != addr ==> m2[i] == mem[i]
            &&& r == reg && c2 == ctx
        }),
{
    reveal(op_effect);

}

/// `STX` to memory at `addr` writes X there; every other byte, every register and the status byte stay as they were.
pub proof fn law_stx(reg: Reg, mem: Seq<u8>, o: Operand, ctx: Context, addr: u16)
    requires
        mem.len() == MEM_SIZE,
        o == Operand::Mem(addr),
        addr < MEM_SIZE,
    ensures
        ({
            let (r, m2, c2) = op_effect(Op::Stx, reg, mem, o, ctx);
            &&& m2.len() == mem.len()
            &&& m2[addr as int] == reg.x
            &&& forall|i: int| 0 <= i < mem.len() && i != addr ==> m2[i] == mem[i]
            &&& r == reg && c2 == ctx
        }),
{
    reveal(op_effect);

}

/// `STY` to memory at `addr` writes Y there; every other byte, every register and the status byte stay as they were.
pub proof fn law_sty(reg: Reg, mem: Seq<u8>, o: Operand, ctx: Context, addr: u16)
    requires
        mem.len() == MEM_SIZE,
        o == Operand::Mem(addr),
        addr < MEM_SIZE,
    ensures
        ({
            let (r, m2, c2) = op_effect(Op::Sty, reg, mem, o, ctx);
            &&& m2.len() == mem.len()
            &&& m2[addr as int] == reg.y
            &&& forall|i: int| 0 <= i < mem.len() && i != addr ==> m2[i] == mem[i]
            &&& r == reg && c2 == ctx
        }),
{
    reveal(op_effect);

}

/// `INC` adds one to the operand, wrapping from 0xff to 0; N and Z follow the new value; the operand's other bytes and the other registers stay as they were.
pub proof fn law_inc(reg: Reg, mem: Seq<u8>, o: Operand, ctx: Context)
    requires
        mem.len() == MEM_SIZE,
        can_read(o),
        can_write(o),
    ensures
        ({
            let (r, m2, c2) = op_effect(Op::Inc, reg, mem, o, ctx);
            let m = operand_value(reg, mem, o);
            let v = operand_value(r, m2, o);
            &&& v == (m + 1) % 256
            &&& bit(r.p, N) == (v >= 0x80)
            &&& bit(r.p, Z) == (v == 0)
            &&& rest_nz(r.p) == rest_nz(reg.p)
            &&& r.x == reg.x && r.y == reg.y && r.s == reg.s && r.pc == reg.pc
            &&& (o is Acc ==> m2 == mem)
            &&& (o is Mem ==> r.a == reg.a && m2.len() == mem.len()
                && forall|i: int| 0 <= i < mem.len() && i != o->Mem_0 ==> m2[i] == mem[i])
            &&& c2 == ctx
        }),
{
    let m = operand_value(reg, mem, o);
    lemma_carry_in(reg.p);
    let v: u8 = inc8(m);
    assert(op_effect(Op::Inc, reg, mem, o, ctx) == modify(reg, mem, o, ctx, v, with_nz(reg.p, v))) by {
        reveal(op_effect);
    }
    lemma_nz_bits(reg.p, v);
}

/// `DEC` takes one from the operand, wrapping from 0 to 0xff; N and Z follow the new value; the operand's other bytes and the other registers stay as they were.
pub proof fn law_dec(reg: Reg, mem: Seq<u8>, o: Operand, ctx: Context)
    requires
        mem.len() == MEM_SIZE,
        can_read(o),
        can_write(o),
    ensures
        ({
            let (r, m2, c2) = op_effect(Op::Dec, reg, mem, o, ctx);
            let m = operand_value(reg, mem, o);
            let v = operand_value(r, m2, o);
            &&& v == (m + 255) % 256
            &&& bit(r.p, N) == (v >= 0x80)
            &&& bit(r.p, Z) == (v == 0)
            &&& rest_nz(r.p) == rest_nz(reg.p)
            &&& r.x == reg.x && r.y == reg.y && r.s == reg.s && r.pc == reg.pc
            &&& (o is Acc ==> m2 == mem)
            &&& (o is Mem ==> r.a == reg.a && m2.len() == mem.len()
                && forall|i: int| 0 <= i < mem.len() && i != o->Mem_0 ==> m2[i] == mem[i])
            &&& c2 == ctx
        }),
{
    let m = operand_value(reg, mem, o);
    lemma_carry_in(reg.p);
    let v: u8 = dec8(m);
    assert(op_effect(Op::Dec, reg, mem, o, ctx) == modify(reg, mem, o, ctx, v, with_nz(reg.p, v))) by {
        reveal(op_effect);
    }
    lemma_nz_bits(reg.p, v);
}

/// `LSR` halves the operand (shifts it right by one); N is cleared, Z follows the new value and C is cleared; the operand's other bytes and the other registers stay as they were.
pub proof fn law_lsr(reg: Reg, mem: Seq<u8>, o: Operand, ctx: Context)
    requires
        mem.len() == MEM_SIZE,
        can_read(o),
        can_write(o),
    ensures
        ({
            let (r, m2, c2) = op_effect(Op::Lsr, reg, mem, o, ctx);
            let m = operand_value(reg, mem, o);
            let v = operand_value(r, m2, o);
            &&& v == m / 2
            &&& !bit(r.p, N)
            &&& bit(r.p, Z) == (v == 0)
            &&& !bit(r.p, C)
            &&& rest_nzc(r.p) == rest_nzc(reg.p)
            &&& r.x == reg.x && r.y == reg.y && r.s == reg.s && r.pc == reg.pc
            &&& (o is Acc ==> m2 == mem)
            &&& (o is Mem ==> r.a == reg.a && m2.len() == mem.len()
                && forall|i: int| 0 <= i < mem.len() && i != o->Mem_0 ==> m2[i] == mem[i])
            &&& c2 == ctx
        }),
{
    let m = operand_value(reg, mem, o);
    lemma_carry_in(reg.p);
    let v: u8 = m / 2;
    assert(op_effect(Op::Lsr, reg, mem, o, ctx) == modify(reg, mem, o, ctx, v, with_flag(with_flag(with_flag(reg.p, N, false), Z, v == 0), C, false))) by {
        reveal(op_effect);
    }
    let p = reg.p;
    let z = v == 0;
    assert(!bit(with_flag(with_flag(with_flag(p, N, false), Z, z), C, false), N)) by (bit_vector);
    assert(bit(with_flag(with_flag(with_flag(p, N, false), Z, z), C, false), Z) == z) by (bit_vector);
    assert(!bit(with_flag(with_flag(with_flag(p, N, false), Z, z), C, false), C)) by (bit_vector);
    assert(rest_nzc(with_flag(with_flag(with_flag(p, N, false), Z, z), C, false)) == rest_nzc(p)) by (bit_vector);
}

/// `ROL` shifts the operand left by one and brings the carry into bit 0; N and Z follow the new value, C is cleared; the operand's other bytes and the other registers stay as they were.
pub proof fn law_rol(reg: Reg, mem: Seq<u8>, o: Operand, ctx: Context)
    requires
        mem.len() == MEM_SIZE,
        can_read(o),
        can_write(o),
    ensures
        ({
            let (r, m2, c2) = op_effect(Op::Rol, reg, mem, o, ctx);
            let m = operand_value(reg, mem, o);
            let v = operand_value(r, m2, o);
            &&& v == (m * 2) % 256 + carry_in(reg.p)
            &&& bit(r.p, N) == (v >= 0x80)
            &&& bit(r.p, Z) == (v == 0)
            &&& !bit(r.p, C)
            &&& rest_nzc(r.p) == rest_nzc(reg.p)
            &&& r.x == reg.x && r.y == reg.y && r.s == reg.s && r.pc == reg.pc
            &&& (o is Acc ==> m2 == mem)
            &&& (o is Mem ==> r.a == reg.a && m2.len() == mem.len()
                && forall|i: int| 0 <= i < mem.len() && i != o->Mem_0 ==> m2[i] == mem[i])
            &&& c2 == ctx
        }),
{
    let m = operand_value(reg, mem, o);
    lemma_carry_in(reg.p);
    let v: u8 = (((m * 2) % 256) + (reg.p & C)) as u8;
    assert(op_effect(Op::Rol, reg, mem, o, ctx) == modify(reg, mem, o, ctx, v, with_flag(with_nz(reg.p, v), C, false))) by {
        reveal(op_effect);
    }
    lemma_nzc_bits(reg.p, v, false);
}

/// `ROR` shifts the operand right by one and brings the carry into bit 7; N and Z follow the new value, C is cleared; the operand's other bytes and the other registers stay as they were.
pub proof fn law_ror(reg: Reg, mem: Seq<u8>, o: Operand, ctx: Context)
    requires
        mem.len() == MEM_SIZE,
        can_read(o),
        can_write(o),
    ensures
        ({
            let (r, m2, c2) = op_effect(Op::Ror, reg, mem, o, ctx);
            let m = operand_value(reg, mem, o);
            let v = operand_value(r, m2, o);
            &&& v == m / 2 + 128 * carry_in(reg.p)
            &&& bit(r.p, N) == (v >= 0x80)
            &&& bit(r.p, Z) == (v == 0)
            &&& !bit(r.p, C)
            &&& rest_nzc(r.p) == rest_nzc(reg.p)
            &&& r.x == reg.x && r.y == reg.y && r.s == reg.s && r.pc == reg.pc
            &&& (o is Acc ==> m2 == mem)
            &&& (o is Mem ==> r.a == reg.a && m2.len() == mem.len()
                && forall|i: int| 0 <= i < mem.len() && i != o->Mem_0 ==> m2[i] == mem[i])
            &&& c2 == ctx
        }),
{
    let m = operand_value(reg, mem, o);
    lemma_carry_in(reg.p);
    let v: u8 = (m / 2 + (reg.p & C) * 128) as u8;
    assert(op_effect(Op::Ror, reg, mem, o, ctx) == modify(reg, mem, o, ctx, v, with_flag(with_nz(reg.p, v), C, false))) by {
        reveal(op_effect);
    }
    lemma_nzc_bits(reg.p, v, false);
}

/// `BCC` branches exactly when carry is clear: the program counter moves by the signed offset (wrapping) and one cycle is added, two when the target is in another page; otherwise nothing changes.
pub proof fn law_bcc(reg: Reg, mem: Seq<u8>, o: Operand, ctx: Context)
    requires
        can_read(o),
        ctx.cycles + 2 <= usize::MAX,
    ensures
        ({
            let (r, m2, c2) = op_effect(Op::Bcc, reg, mem, o, ctx);
            let off = operand_value(reg, mem, o) as int;
            let target = (reg.pc + (if off < 0x80 { off } else { off - 0x100 }) + 0x10000) % 0x10000;
            &&& if !bit(reg.p, C) {
                &&& r.pc == target
                &&& c2.cycles == ctx.cycles + (if reg.pc / 0x100 != target / 0x100 { 2int } else { 1int })
            } else {
                &&& r.pc == reg.pc
                &&& c2.cycles == ctx.cycles
            }
            &&& r.a == reg.a && r.x == reg.x && r.y == reg.y && r.s == reg.s && r.p == reg.p
            &&& m2 == mem && c2.jump == ctx.jump
        }),
{
    let off = operand_value(reg, mem, o);
    lemma_branch_target(reg.pc, off);
    assert(op_effect(Op::Bcc, reg, mem, o, ctx) == branch(reg, mem, ctx, off, reg.p & C == 0)) by {
        reveal(op_effect);
    }
}

/// `BCS` branches exactly when carry is set: the program counter moves by the signed offset (wrapping) and one cycle is added, two when the target is in another page; otherwise nothing changes.
pub proof fn law_bcs(reg: Reg, mem: Seq<u8>, o: Operand, ctx: Context)
    requires
        can_read(o),
        ctx.cycles + 2 <= usize::MAX,
    ensures
        ({
            let (r, m2, c2) = op_effect(Op::Bcs, reg, mem, o, ctx);
            let off = operand_value(reg, mem, o) as int;
            let target = (reg.pc + (if off < 0x80 { off } else { off - 0x100 }) + 0x10000) % 0x10000;
            &&& if bit(reg.p, C) {
                &&& r.pc == target
                &&& c2.cycles == ctx.cycles + (if reg.pc / 0x100 != target / 0x100 { 2int } else { 1int })
            } else {
                &&& r.pc == reg.pc
                &&& c2.cycles == ctx.cycles
            }
            &&& r.a == reg.a && r.x == reg.x && r.y == reg.y && r.s == reg.s && r.p == reg.p
            &&& m2 == mem && c2.jump == ctx.jump
        }),
{
    let off = operand_value(reg, mem, o);
    lemma_branch_target(reg.pc, off);
    assert(op_effect(Op::Bcs, reg, mem, o, ctx) == branch(reg, mem, ctx, off, reg.p & C != 0)) by {
        reveal(op_effect);
    }
}

/// `BEQ` branches exactly when zero is set: the program counter moves by the signed offset (wrapping) and one cycle is added, two when the target is in another page; otherwise nothing changes.
pub proof fn law_beq(reg: Reg, mem: Seq<u8>, o: Operand, ctx: Context)
    requires
        can_read(o),
        ctx.cycles + 2 <= usize::MAX,
    ensures
        ({
            let (r, m2, c2) = op_effect(Op::Beq, reg, mem, o, ctx);
            let off = operand_value(reg, mem, o) as int;
            let target = (reg.pc + (if off < 0x80 { off } else { off - 0x100 }) + 0x10000) % 0x10000;
            &&& if bit(reg.p, Z) {
                &&& r.pc == target
                &&& c2.cycles == ctx.cycles + (if reg.pc / 0x100 != target / 0x100 { 2int } else { 1int })
            } else {
                &&& r.pc == reg.pc
                &&& c2.cycles == ctx.cycles
            }
            &&& r.a == reg.a && r.x == reg.x && r.y == reg.y && r.s == reg.s && r.p == reg.p
            &&& m2 == mem && c2.jump == ctx.jump
        }),
{
    let off = operand_value(reg, mem, o);
    lemma_branch_target(reg.pc, off);
    assert(op_effect(Op::Beq, reg, mem, o, ctx) == branch(reg, mem, ctx, off, reg.p & Z != 0)) by {
        reveal(op_effect);
    }
}

/// `BMI` branches exactly when negative is set: the program counter moves by the signed offset (wrapping) and one cycle is added, two when the target is in another page; otherwise nothing changes.
pub proof fn law_bmi(reg: Reg, mem: Seq<u8>, o: Operand, ctx: Context)
    requires
        can_read(o),
        ctx.cycles + 2 <= usize::MAX,
    ensures
        ({
            let (r, m2, c2) = op_effect(Op::Bmi, reg, mem, o, ctx);
            let off = operand_value(reg, mem, o) as int;
            let target = (reg.pc + (if off < 0x80 { off } else { off - 0x100 }) + 0x10000) % 0x10000;
            &&& if bit(reg.p, N) {
                &&& r.pc == target
                &&& c2.cycles == ctx.cycles + (if reg.pc / 0x100 != target / 0x100 { 2int } else { 1int })
            } else {
                &&& r.pc == reg.pc
                &&& c2.cycles == ctx.cycles
            }
            &&& r.a == reg.a && r.x == reg.x && r.y == reg.y && r.s == reg.s && r.p == reg.p
            &&& m2 == mem && c2.jump == ctx.jump
        }),
{
    let off = operand_value(reg, mem, o);
    lemma_branch_target(reg.pc, off);
    assert(op_effect(Op::Bmi, reg, mem, o, ctx) == branch(reg, mem, ctx, off, reg.p & N != 0)) by {
        reveal(op_effect);
    }
}

/// `BNE` branches exactly when zero is clear: the program counter moves by the signed offset (wrapping) and one cycle is added, two when the target is in another page; otherwise nothing changes.
pub proof fn law_bne(reg: Reg, mem: Seq<u8>, o: Operand, ctx: Context)
    requires
        can_read(o),
        ctx.cycles + 2 <= usize::MAX,
    ensures
        ({
            let (r, m2, c2) = op_effect(Op::Bne, reg, mem, o, ctx);
            let off = operand_value(reg, mem, o) as int;
            let target = (reg.pc + (if off < 0x80 { off } else { off - 0x100 }) + 0x10000) % 0x10000;
            &&& if !bit(reg.p, Z) {
                &&& r.pc == target
                &&& c2.cycles == ctx.cycles + (if reg.pc / 0x100 != target / 0x100 { 2int } else { 1int })
            } else {
                &&& r.pc == reg.pc
                &&& c2.cycles == ctx.cycles
            }
            &&& r.a == reg.a && r.x == reg.x && r.y == reg.y && r.s == reg.s && r.p == reg.p
            &&& m2 == mem && c2.jump == ctx.jump
        }),
{
    let off = operand_value(reg, mem, o);
    lemma_branch_target(reg.pc, off);
    assert(op_effect(Op::Bne, reg, mem, o, ctx) == branch(reg, mem, ctx, off, reg.p & Z == 0)) by {
        reveal(op_effect);
    }
}

/// `BPL` branches exactly when negative is clear: the program counter moves by the signed offset (wrapping) and one cycle is added, two when the target is in another page; otherwise nothing changes.
pub proof fn law_bpl(reg: Reg, mem: Seq<u8>, o: Operand, ctx: Context)
    requires
        can_read(o),
        ctx.cycles + 2 <= usize::MAX,
    ensures
        ({
            let (r, m2, c2) = op_effect(Op::Bpl, reg, mem, o, ctx);
            let off = operand_value(reg, mem, o) as int;
            let target = (reg.pc + (if off < 0x80 { off } else { off - 0x100 }) + 0x10000) % 0x10000;
            &&& if !bit(reg.p, N) {
                &&& r.pc == target
                &&& c2.cycles == ctx.cycles + (if reg.pc / 0x100 != target / 0x100 { 2int } else { 1int })
            } else {
                &&& r.pc == reg.pc
                &&& c2.cycles == ctx.cycles
            }
            &&& r.a == reg.a && r.x == reg.x && r.y == reg.y && r.s == reg.s && r.p == reg.p
            &&& m2 == mem && c2.jump == ctx.jump
        }),
{
    let off = operand_value(reg, mem, o);
    lemma_branch_target(reg.pc, off);
    assert(op_effect(Op::Bpl, reg, mem, o, ctx) == branch(reg, mem, ctx, off, reg.p & N == 0)) by {
        reveal(op_effect);
    }
}

/// `BVC` branches exactly when overflow is clear: the program counter moves by the signed offset (wrapping) and one cycle is added, two when the target is in another page; otherwise nothing changes.
pub proof fn law_bvc(reg: Reg, mem: Seq<u8>, o: Operand, ctx: Context)
    requires
        can_read(o),
        ctx.cycles + 2 <= usize::MAX,
    ensures
        ({
            let (r, m2, c2) = op_effect(Op::Bvc, reg, mem, o, ctx);
            let off = operand_value(reg, mem, o) as int;
            let target = (reg.pc + (if off < 0x80 { off } else { off - 0x100 }) + 0x10000) % 0x10000;
            &&& if !bit(reg.p, V) {
                &&& r.pc == target
                &&& c2.cycles == ctx.cycles + (if reg.pc / 0x100 != target / 0x100 { 2int } else { 1int })
            } else {
                &&& r.pc == reg.pc
                &&& c2.cycles == ctx.cycles
            }
            &&& r.a == reg.a && r.x == reg.x && r.y == reg.y && r.s == reg.s && r.p == reg.p
            &&& m2 == mem && c2.jump == ctx.jump
        }),
{
    let off = operand_value(reg, mem, o);
    lemma_branch_target(reg.pc, off);
    assert(op_effect(Op::Bvc, reg, mem, o, ctx) == branch(reg, mem, ctx, off, reg.p & V == 0)) by {
        reveal(op_effect);
    }
}

/// `BVS` branches exactly when overflow is set: the program counter moves by the signed offset (wrapping) and one cycle is added, two when the target is in another page; otherwise nothing changes.
pub proof fn law_bvs(reg: Reg, mem: Seq<u8>, o: Operand, ctx: Context)
    requires
        can_read(o),
        ctx.cycles + 2 <= usize::MAX,
    ensures
        ({
            let (r, m2, c2) = op_effect(Op::Bvs, reg, mem, o, ctx);
            let off = operand_value(reg, mem, o) as int;
            let target = (reg.pc + (if off < 0x80 { off } else { off - 0x100 }) + 0x10000) % 0x10000;
            &&& if bit(reg.p, V) {
                &&& r.pc == target
                &&& c2.cycles == ctx.cycles + (if reg.pc / 0x100 != target / 0x100 { 2int } else { 1int })
            } else {
                &&& r.pc == reg.pc
                &&& c2.cycles == ctx.cycles
            }
            &&& r.a == reg.a && r.x == reg.x && r.y == reg.y && r.s == reg.s && r.p == reg.p
            &&& m2 == mem && c2.jump == ctx.jump
        }),
{
    let off = operand_value(reg, mem, o);
    lemma_branch_target(reg.pc, off);
    assert(op_effect(Op::Bvs, reg, mem, o, ctx) == branch(reg, mem, ctx, off, reg.p & V != 0)) by {
        reveal(op_effect);
    }
}

/// `ASL` shifts the accumulator left by one (whatever the operand); N and Z follow the new value, C is cleared; nothing else changes.
pub proof fn law_asl(reg: Reg, mem: Seq<u8>, o: Operand, ctx: Context)
    ensures
        ({
            let (r, m2, c2) = op_effect(Op::Asl, reg, mem, o, ctx);
            &&& r.a == (reg.a * 2) % 256
            &&& bit(r.p, N) == (r.a >= 0x80)
            &&& bit(r.p, Z) == (r.a == 0)
            &&& !bit(r.p, C)
            &&& rest_nzc(r.p) == rest_nzc(reg.p)
            &&& r.x == reg.x && r.y == reg.y && r.s == reg.s && r.pc == reg.pc
            &&& m2 == mem && c2 == ctx
        }),
{
    reveal(op_effect);
    let (r, m2, c2) = op_effect(Op::Asl, reg, mem, o, ctx);
    lemma_nzc_bits(reg.p, r.a, false);
}

/// `BIT` sets N from bit 7 and V from bit 6 of `A & M`, and Z exactly when `A & M` is zero; the other status bits and all registers stay as they were.
pub proof fn law_bit(reg: Reg, mem: Seq<u8>, o: Operand, ctx: Context)
    requires
        can_read(o),
    ensures
        ({
            let (r, m2, c2) = op_effect(Op::Bit, reg, mem, o, ctx);
            let t = reg.a & operand_value(reg, mem, o);
            &&& bit(r.p, N) == bit(t, N)
            &&& bit(r.p, V) == bit(t, V)
            &&& bit(r.p, Z) == (t == 0)
            &&& r.p & 0x3d == reg.p & 0x3d
            &&& r.a == reg.a && r.x == reg.x && r.y == reg.y && r.s == reg.s && r.pc == reg.pc
            &&& m2 == mem && c2 == ctx
        }),
{
    reveal(op_effect);
    let t = reg.a & operand_value(reg, mem, o);
    let p = reg.p;
    let q = with_flag(with_flag(with_flag(p, N, t & N != 0), V, t & V != 0), Z, t == 0);
    assert(bit(q, N) == bit(t, N) && bit(q, V) == bit(t, V) && bit(q, Z) == (t == 0) && q & 0x3d
        == p & 0x3d) by (bit_vector)
        requires
            q == with_flag(with_flag(with_flag(p, N, t & N != 0), V, t & V != 0), Z, t == 0),
    ;
}

/// `PHA` writes the accumulator to the stack slot at `0x100 + S` and moves S down by one (wrapping); no other byte or register changes.
pub proof fn law_pha(reg: Reg, mem: Seq<u8>, o: Operand, ctx: Context)
    requires
        mem.len() == MEM_SIZE,
    ensures
        ({
            let (r, m2, c2) = op_effect(Op::Pha, reg, mem, o, ctx);
            &&& m2.len() == mem.len()
            &&& m2[0x100 + reg.s] == reg.a
            &&& forall|i: int| 0 <= i < mem.len() && i != 0x100 + reg.s ==> m2[i] == mem[i]
            &&& r.s == (reg.s + 255) % 256
            &&& r.a == reg.a && r.x == reg.x && r.y == reg.y && r.p == reg.p && r.pc == reg.pc
            &&& c2 == ctx
        }),
{
    lemma_push(reg, mem, reg.a);
    assert(op_effect(Op::Pha, reg, mem, o, ctx) == (push_spec(reg, mem, reg.a).0, push_spec(reg, mem, reg.a).1, ctx)) by {
        reveal(op_effect);
    }
}

/// `PHP` writes the status byte to the stack slot at `0x100 + S` and moves S down by one (wrapping); no other byte or register changes.
pub proof fn law_php(reg: Reg, mem: Seq<u8>, o: Operand, ctx: Context)
    requires
        mem.len() == MEM_SIZE,
    ensures
        ({
            let (r, m2, c2) = op_effect(Op::Php, reg, mem, o, ctx);
            &&& m2.len() == mem.len()
            &&& m2[0x100 + reg.s] == reg.p
            &&& forall|i: int| 0 <= i < mem.len() && i != 0x100 + reg.s ==> m2[i] == mem[i]
            &&& r.s == (reg.s + 255) % 256
            &&& r.a == reg.a && r.x == reg.x && r.y == reg.y && r.p == reg.p && r.pc == reg.pc
            &&& c2 == ctx
        }),
{
    lemma_push(reg, mem, reg.p);
    assert(op_effect(Op::Php, reg, mem, o, ctx) == (push_spec(reg, mem, reg.p).0, push_spec(reg, mem, reg.p).1, ctx)) by {
        reveal(op_effect);
    }
}

/// `PLA` moves S up by one (wrapping) and loads the accumulator from the slot at `0x100 + S`; N and Z follow it; memory is unchanged.
pub proof fn law_pla(reg: Reg, mem: Seq<u8>, o: Operand, ctx: Context)
    requires
        mem.len() == MEM_SIZE,
    ensures
        ({
            let (r, m2, c2) = op_effect(Op::Pla, reg, mem, o, ctx);
            let s1 = (reg.s + 1) % 256;
            &&& r.s == s1
            &&& r.a == mem[0x100 + s1]
            &&& bit(r.p, N) == (r.a >= 0x80)
            &&& bit(r.p, Z) == (r.a == 0)
            &&& rest_nz(r.p) == rest_nz(reg.p)
            &&& r.x == reg.x && r.y == reg.y && r.pc == reg.pc
            &&& m2 == mem && c2 == ctx
        }),
{
    reveal(op_effect);
    let (r, m2, c2) = op_effect(Op::Pla, reg, mem, o, ctx);
    lemma_nz_bits(reg.p, r.a);
}

/// `PLP` moves S up by one (wrapping) and loads the status byte from the slot at `0x100 + S`; memory is unchanged.
pub proof fn law_plp(reg: Reg, mem: Seq<u8>, o: Operand, ctx: Context)
    requires
        mem.len() == MEM_SIZE,
    ensures
        ({
            let (r, m2, c2) = op_effect(Op::Plp, reg, mem, o, ctx);
            let s1 = (reg.s + 1) % 256;
            &&& r.s == s1
            &&& r.p == mem[0x100 + s1]
            &&& r.a == reg.a && r.x == reg.x && r.y == reg.y && r.pc == reg.pc
            &&& m2 == mem && c2 == ctx
        }),
{
    reveal(op_effect);

}

/// `JMP` sets the program counter to the operand's address and records the jump; nothing else changes.
pub proof fn law_jmp(reg: Reg, mem: Seq<u8>, o: Operand, ctx: Context, addr: u16)
    requires
        o == Operand::Mem(addr),
    ensures
        ({
            let (r, m2, c2) = op_effect(Op::Jmp, reg, mem, o, ctx);
            &&& r.pc == addr
            &&& c2.jump && c2.cycles == ctx.cycles
            &&& r.a == reg.a && r.x == reg.x && r.y == reg.y && r.s == reg.s && r.p == reg.p
            &&& m2 == mem
        }),
{
    reveal(op_effect);

}

/// `JSR` pushes its own address plus two, high byte at `0x100 + S` and low byte just below, moves S down by two, sets the program counter to the operand's address and records the jump.
pub proof fn law_jsr(reg: Reg, mem: Seq<u8>, o: Operand, ctx: Context, addr: u16)
    requires
        mem.len() == MEM_SIZE,
        o == Operand::Mem(addr),
        reg.pc + 2 <= u16::MAX,
    ensures
        ({
            let (r, m2, c2) = op_effect(Op::Jsr, reg, mem, o, ctx);
            let ret = reg.pc + 2;
            let lo = 0x100 + (reg.s + 255) % 256;
            &&& r.pc == addr
            &&& m2.len() == mem.len()
            &&& m2[0x100 + reg.s] == ret / 256
            &&& m2[lo] == ret % 256
            &&& forall|i: int| 0 <= i < mem.len() && i != 0x100 + reg.s && i != lo ==> m2[i] == mem[i]
            &&& r.s == (reg.s + 254) % 256
            &&& c2.jump && c2.cycles == ctx.cycles
            &&& r.a == reg.a && r.x == reg.x && r.y == reg.y && r.p == reg.p
        }),
{
    let ret = (reg.pc + 2) as u16;
    let r0 = Reg { pc: addr, ..reg };
    let (ra, ma) = push_spec(r0, mem, (ret / 256) as u8);
    let (rb, mb) = push_spec(ra, ma, (ret % 256) as u8);
    lemma_push(r0, mem, (ret / 256) as u8);
    lemma_push(ra, ma, (ret % 256) as u8);
    assert(op_effect(Op::Jsr, reg, mem, o, ctx) == (rb, mb, Context { jump: true, ..ctx })) by {
        reveal(op_effect);
    }
    assert(((reg.s + 255) % 256 + 255) % 256 == (reg.s + 254) % 256);
}

/// `RTS` pops the low byte, then the high byte, of the program counter, moving S up by two; memory is unchanged.
pub proof fn law_rts(reg: Reg, mem: Seq<u8>, o: Operand, ctx: Context)
    requires
        mem.len() == MEM_SIZE,
    ensures
        ({
            let (r, m2, c2) = op_effect(Op::Rts, reg, mem, o, ctx);
            let s1 = (reg.s + 1) % 256;
            let s2 = (reg.s + 2) % 256;
            &&& r.pc == mem[0x100 + s2] * 256 + mem[0x100 + s1]
            &&& r.s == s2
            &&& r.a == reg.a && r.x == reg.x && r.y == reg.y && r.p == reg.p
            &&& m2 == mem && c2 == ctx
        }),
{
    lemma_pop16(reg, mem);
    assert(op_effect(Op::Rts, reg, mem, o, ctx) == (Reg { pc: pop16_spec(reg, mem).1, ..pop16_spec(reg, mem).0 }, mem, ctx)) by {
        reveal(op_effect);
    }
}

/// `RTI` pops the status byte, then the low and the high byte of the program counter, moving S up by three; memory is unchanged.
pub proof fn law_rti(reg: Reg, mem: Seq<u8>, o: Operand, ctx: Context)
    requires
        mem.len() == MEM_SIZE,
    ensures
        ({
            let (r, m2, c2) = op_effect(Op::Rti, reg, mem, o, ctx);
            let s1 = (reg.s + 1) % 256;
            let s2 = (reg.s + 2) % 256;
            let s3 = (reg.s + 3) % 256;
            &&& r.p == mem[0x100 + s1]
            &&& r.pc == mem[0x100 + s3] * 256 + mem[0x100 + s2]
            &&& r.s == s3
            &&& r.a == reg.a && r.x == reg.x && r.y == reg.y
            &&& m2 == mem && c2 == ctx
        }),
{
    lemma_pop(reg, mem);
    let r1 = Reg { p: pop_spec(reg, mem).1, ..pop_spec(reg, mem).0 };
    lemma_pop16(r1, mem);
    assert(op_effect(Op::Rti, reg, mem, o, ctx) == (Reg { pc: pop16_spec(r1, mem).1, ..pop16_spec(r1, mem).0 }, mem, ctx)) by {
        reveal(op_effect);
    }
    assert(((reg.s + 1) % 256 + 2) % 256 == (reg.s + 3) % 256);
    assert(((reg.s + 1) % 256 + 1) % 256 == (reg.s + 2) % 256);
}

/// `BRK` pushes its own address plus two (high byte first) and then the status byte, moves S down by three and sets the break flag; no other status bit and no other register changes.
pub proof fn law_brk(reg: Reg, mem: Seq<u8>, o: Operand, ctx: Context)
    requires
        mem.len() == MEM_SIZE,
        reg.pc + 2 <= u16::MAX,
    ensures
        ({
            let (r, m2, c2) = op_effect(Op::Brk, reg, mem, o, ctx);
            let ret = reg.pc + 2;
            let a1 = 0x100 + reg.s;
            let a2 = 0x100 + (reg.s + 255) % 256;
            let a3 = 0x100 + (reg.s + 254) % 256;
            &&& m2.len() == mem.len()
            &&& m2[a1] == ret / 256
            &&& m2[a2] == ret % 256
            &&& m2[a3] == reg.p
            &&& forall|i: int| 0 <= i < mem.len() && i != a1 && i != a2 && i != a3 ==> m2[i] == mem[i]
            &&& r.s == (reg.s + 253) % 256
            &&& bit(r.p, 0x10u8)
            &&& r.p & !0x10u8 == reg.p & !0x10u8
            &&& r.a == reg.a && r.x == reg.x && r.y == reg.y && r.pc == reg.pc
            &&& c2 == ctx
        }),
{
    let ret = (reg.pc + 2) as u16;
    let (ra, ma) = push_spec(reg, mem, (ret / 256) as u8);
    let (rb, mb) = push_spec(ra, ma, (ret % 256) as u8);
    let (rc, mc) = push_spec(rb, mb, reg.p);
    lemma_push(reg, mem, (ret / 256) as u8);
    lemma_push(ra, ma, (ret % 256) as u8);
    lemma_push(rb, mb, reg.p);
    assert(op_effect(Op::Brk, reg, mem, o, ctx) == (Reg { p: with_flag(rc.p, 0x10u8, true), ..rc }, mc, ctx)) by {
        reveal(op_effect);
    }
    assert(((reg.s + 255) % 256 + 255) % 256 == (reg.s + 254) % 256);
    assert(((reg.s + 254) % 256 + 255) % 256 == (reg.s + 253) % 256);
    let p = reg.p;
    assert(bit(p | 0x10u8, 0x10u8) && (p | 0x10u8) & !0x10u8 == p & !0x10u8) by (bit_vector);
}

/// `NOP` changes nothing.
pub proof fn law_nop(reg: Reg, mem: Seq<u8>, o: Operand, ctx: Context)
    ensures
        ({
            let (r, m2, c2) = op_effect(Op::Nop, reg, mem, o, ctx);
            r == reg && m2 == mem && c2 == ctx
        }),
{
    reveal(op_effect);

}

/// The operand each addressing mode designates, in plain arithmetic on the
/// bytes that follow the opcode: `b` is the byte at `PC + 1`, `w` the word
/// at `PC + 1` (high byte first), and words elsewhere are read high byte
/// first; zero-page sums wrap within page zero, absolute sums within the
/// 16-bit address space.
pub proof fn law_addressing(reg: Reg, mem: Seq<u8>, mode: Addr)
    requires
        mem.len() == MEM_SIZE,
        resolve_ok(reg, mem, mode),
    ensures
        ({
            let pc1 = reg.pc + 1;
            let b = mem[pc1];
            let word = |a: int| mem[a] * 256 + mem[(a + 1) % 0x10000];
            let w = word(pc1);
            let o = resolve_spec(reg, mem, mode);
            match mode {
                Addr::Acc => o == Operand::Acc,
                Addr::Imp => o == Operand::Imp,
                Addr::Imm | Addr::Rel => o == Operand::Imm(b),
                Addr::Zero => o == Operand::Mem(b as u16),
                Addr::ZeroX => o is Mem && o->Mem_0 == (b + reg.x) % 256,
                Addr::ZeroY => o is Mem && o->Mem_0 == (b + reg.y) % 256,
                Addr::Abs => o is Mem && o->Mem_0 == w,
                Addr::AbsX => o is Mem && o->Mem_0 == (w + reg.x) % 0x10000,
                Addr::AbsY => o is Mem && o->Mem_0 == (w + reg.y) % 0x10000,
                Addr::Ind => o is Mem && o->Mem_0 == word(w),
                Addr::IndX => o is Mem && o->Mem_0 == word(
                    mem[(b + reg.x) % 256] * 256 + mem[(b + reg.x + 1) % 256],
                ),
                Addr::IndY => o is Mem && o->Mem_0 == word(
                    (mem[b as int] * 256 + mem[(b + 1) % 256] + reg.y) % 0x10000,
                ),
            }
        }),
{
    let pc1 = reg.pc + 1;
    let b = mem[pc1];
    let h = mem[pc1];
    let l = mem[(pc1 + 1) % 0x10000];
    assert(0 <= h * 256 + l < 0x10000) by (nonlinear_arith)
        requires
            0 <= h < 256,
            0 <= l < 256,
    ;
    let w = word_at(mem, pc1 as u16);
    let h2 = mem[w as int];
    let l2 = mem[(w + 1) % 0x10000];
    assert(0 <= h2 * 256 + l2 < 0x10000) by (nonlinear_arith)
        requires
            0 <= h2 < 256,
            0 <= l2 < 256,
    ;
    let hx = mem[(b + reg.x) % 256];
    let lx = mem[(b + reg.x + 1) % 256];
    assert(0 <= hx * 256 + lx < 0x10000) by (nonlinear_arith)
        requires
            0 <= hx < 256,
            0 <= lx < 256,
    ;
    assert((b + (reg.x + 1) % 256) % 256 == (b + reg.x + 1) % 256);
    let hy = mem[b as int];
    let ly = mem[(b + 1) % 256];
    assert(0 <= hy * 256 + ly < 0x10000) by (nonlinear_arith)
        requires
            0 <= hy < 256,
            0 <= ly < 256,
    ;
    let px = (hx * 256 + lx) as u16;
    let py = ((hy * 256 + ly + reg.y) % 0x10000) as u16;
    let hpx = mem[px as int];
    let lpx = mem[(px + 1) % 0x10000];
    assert(0 <= hpx * 256 + lpx < 0x10000) by (nonlinear_arith)
        requires
            0 <= hpx < 256,
            0 <= lpx < 256,
    ;
    let hpy = mem[py as int];
    let lpy = mem[(py + 1) % 0x10000];
    assert(0 <= hpy * 256 + lpy < 0x10000) by (nonlinear_arith)
        requires
            0 <= hpy < 256,
            0 <= lpy < 256,
    ;
}

/// Running a `NOP` entry moves the program counter past it (by its length,
/// wrapping), spends its cycle count, and changes nothing else.
pub proof fn law_step_nop(inst: Inst, reg: Reg, mem: Seq<u8>)
    requires
        step_ok(Op::Nop, inst, reg, mem),
    ensures
        step_spec(Op::Nop, inst, reg, mem) == (
            Reg { pc: ((reg.pc + (inst.len as u16)) % 0x10000) as u16, ..reg },
            mem,
            inst.cycles,
        ),
{
    law_nop(reg, mem, resolve_spec(reg, mem, inst.addr), Context { cycles: inst.cycles, jump: false });
}

/// Running a `JMP` entry leaves the program counter at the jump's target
/// (it does not also move past the instruction) and spends its cycle count.
pub proof fn law_step_jmp(inst: Inst, reg: Reg, mem: Seq<u8>)
    requires
        step_ok(Op::Jmp, inst, reg, mem),
    ensures
        step_spec(Op::Jmp, inst, reg, mem).0.pc == resolve_spec(reg, mem, inst.addr)->Mem_0,
        step_spec(Op::Jmp, inst, reg, mem).2 == inst.cycles,
{
    let o = resolve_spec(reg, mem, inst.addr);
    law_jmp(reg, mem, o, Context { cycles: inst.cycles, jump: false }, o->Mem_0);
}

/// `execute` runs the first table entry whose opcode is the byte at the
/// program counter: it does what running that entry does.
pub proof fn law_execute_first_entry(reg: Reg, mem: Seq<u8>, insts: Seq<Inst>, i: int)
    requires
        execute_ok(reg, mem, insts),
        0 <= i < insts.len(),
        insts[i].opcode == mem[reg.pc as int],
        forall|j: int| 0 <= j < i ==> insts[j].opcode != mem[reg.pc as int],
    ensures
        execute_spec(reg, mem, insts) == step_spec(op_from_name(insts[i].name@)->0, insts[i], reg, mem),
{
    let k = choose|k: int| decodes_at(insts, mem[reg.pc as int], k);
    assert(decodes_at(insts, mem[reg.pc as int], i));
    if k < i {
        assert(insts[k].opcode != mem[reg.pc as int]);
    } else if i < k {
        assert(insts[i].opcode != mem[reg.pc as int]);
    }
}

} // verus!
