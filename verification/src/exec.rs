//! Decoding and executing one instruction: the operand that an addressing
//! mode designates, the instruction's bookkeeping, and the dispatch on the
//! instruction table.
use vstd::prelude::*;
use vstd::string::StrSliceExecFns;

use crate::cpu::{Context, Reg};
use crate::inst::{Addr, Inst};
use crate::mmu::{word_at, word_readable, Mmu, MEM_SIZE};
use crate::ops::{
    lemma_rts_after_jsr, op_effect, op_ok, operand_addr, Op, Operand,
    adc, and, asl, bcc, bcs, beq, bit, bmi, bne, bpl, brk, bvc,
    bvs, clc, cld, cli, clv, cmp, cpx, cpy, dec, dex, dey, eor,
    inc, inx, iny, jmp, jsr, lda, ldx, ldy, lsr, nop, ora, pha,
    php, pla, plp, rol, ror, rti, rts, sbc, sec, sed, sei, sta,
    stx, sty, tax, tay, tsx, txa, txs, tya,
};

verus! {

broadcast use crate::mmu::group_mmu;

/// The mnemonic of an instruction, upper case.
pub open spec fn op_name(op: Op) -> Seq<char> {
    match op {
        Op::Adc => seq!['A', 'D', 'C'],
        Op::And => seq!['A', 'N', 'D'],
        Op::Asl => seq!['A', 'S', 'L'],
        Op::Bcc => seq!['B', 'C', 'C'],
        Op::Bcs => seq!['B', 'C', 'S'],
        Op::Beq => seq!['B', 'E', 'Q'],
        Op::Bit => seq!['B', 'I', 'T'],
        Op::Bmi => seq!['B', 'M', 'I'],
        Op::Bne => seq!['B', 'N', 'E'],
        Op::Bpl => seq!['B', 'P', 'L'],
        Op::Brk => seq!['B', 'R', 'K'],
        Op::Bvc => seq!['B', 'V', 'C'],
        Op::Bvs => seq!['B', 'V', 'S'],
        Op::Clc => seq!['C', 'L', 'C'],
        Op::Cld => seq!['C', 'L', 'D'],
        Op::Cli => seq!['C', 'L', 'I'],
        Op::Clv => seq!['C', 'L', 'V'],
        Op::Cmp => seq!['C', 'M', 'P'],
        Op::Cpx => seq!['C', 'P', 'X'],
        Op::Cpy => seq!['C', 'P', 'Y'],
        Op::Dec => seq!['D', 'E', 'C'],
        Op::Dex => seq!['D', 'E', 'X'],
        Op::Dey => seq!['D', 'E', 'Y'],
        Op::Eor => seq!['E', 'O', 'R'],
        Op::Inc => seq!['I', 'N', 'C'],
        Op::Inx => seq!['I', 'N', 'X'],
        Op::Iny => seq!['I', 'N', 'Y'],
        Op::Jmp => seq!['J', 'M', 'P'],
        Op::Jsr => seq!['J', 'S', 'R'],
        Op::Lda => seq!['L', 'D', 'A'],
        Op::Ldx => seq!['L', 'D', 'X'],
        Op::Ldy => seq!['L', 'D', 'Y'],
        Op::Lsr => seq!['L', 'S', 'R'],
        Op::Nop => seq!['N', 'O', 'P'],
        Op::Ora => seq!['O', 'R', 'A'],
        Op::Pha => seq!['P', 'H', 'A'],
        Op::Php => seq!['P', 'H', 'P'],
        Op::Pla => seq!['P', 'L', 'A'],
        Op::Plp => seq!['P', 'L', 'P'],
        Op::Rol => seq!['R', 'O', 'L'],
        Op::Ror => seq!['R', 'O', 'R'],
        Op::Rti => seq!['R', 'T', 'I'],
        Op::Rts => seq!['R', 'T', 'S'],
        Op::Sbc => seq!['S', 'B', 'C'],
        Op::Sec => seq!['S', 'E', 'C'],
        Op::Sed => seq!['S', 'E', 'D'],
        Op::Sei => seq!['S', 'E', 'I'],
        Op::Sta => seq!['S', 'T', 'A'],
        Op::Stx => seq!['S', 'T', 'X'],
        Op::Sty => seq!['S', 'T', 'Y'],
        Op::Tax => seq!['T', 'A', 'X'],
        Op::Tay => seq!['T', 'A', 'Y'],
        Op::Tsx => seq!['T', 'S', 'X'],
        Op::Txa => seq!['T', 'X', 'A'],
        Op::Txs => seq!['T', 'X', 'S'],
        Op::Tya => seq!['T', 'Y', 'A'],
    }
}

/// The instruction whose three-letter mnemonic is `c0 c1 c2`.
pub open spec fn op_of_chars(c0: char, c1: char, c2: char) -> Option<Op> {
    match (c0, c1, c2) {
        ('A', 'D', 'C') => Some(Op::Adc),
        ('A', 'N', 'D') => Some(Op::And),
        ('A', 'S', 'L') => Some(Op::Asl),
        ('B', 'C', 'C') => Some(Op::Bcc),
        ('B', 'C', 'S') => Some(Op::Bcs),
        ('B', 'E', 'Q') => Some(Op::Beq),
        ('B', 'I', 'T') => Some(Op::Bit),
        ('B', 'M', 'I') => Some(Op::Bmi),
        ('B', 'N', 'E') => Some(Op::Bne),
        ('B', 'P', 'L') => Some(Op::Bpl),
        ('B', 'R', 'K') => Some(Op::Brk),
        ('B', 'V', 'C') => Some(Op::Bvc),
        ('B', 'V', 'S') => Some(Op::Bvs),
        ('C', 'L', 'C') => Some(Op::Clc),
        ('C', 'L', 'D') => Some(Op::Cld),
        ('C', 'L', 'I') => Some(Op::Cli),
        ('C', 'L', 'V') => Some(Op::Clv),
        ('C', 'M', 'P') => Some(Op::Cmp),
        ('C', 'P', 'X') => Some(Op::Cpx),
        ('C', 'P', 'Y') => Some(Op::Cpy),
        ('D', 'E', 'C') => Some(Op::Dec),
        ('D', 'E', 'X') => Some(Op::Dex),
        ('D', 'E', 'Y') => Some(Op::Dey),
        ('E', 'O', 'R') => Some(Op::Eor),
        ('I', 'N', 'C') => Some(Op::Inc),
        ('I', 'N', 'X') => Some(Op::Inx),
        ('I', 'N', 'Y') => Some(Op::Iny),
        ('J', 'M', 'P') => Some(Op::Jmp),
        ('J', 'S', 'R') => Some(Op::Jsr),
        ('L', 'D', 'A') => Some(Op::Lda),
        ('L', 'D', 'X') => Some(Op::Ldx),
        ('L', 'D', 'Y') => Some(Op::Ldy),
        ('L', 'S', 'R') => Some(Op::Lsr),
        ('N', 'O', 'P') => Some(Op::Nop),
        ('O', 'R', 'A') => Some(Op::Ora),
        ('P', 'H', 'A') => Some(Op::Pha),
        ('P', 'H', 'P') => Some(Op::Php),
        ('P', 'L', 'A') => Some(Op::Pla),
        ('P', 'L', 'P') => Some(Op::Plp),
        ('R', 'O', 'L') => Some(Op::Rol),
        ('R', 'O', 'R') => Some(Op::Ror),
        ('R', 'T', 'I') => Some(Op::Rti),
        ('R', 'T', 'S') => Some(Op::Rts),
        ('S', 'B', 'C') => Some(Op::Sbc),
        ('S', 'E', 'C') => Some(Op::Sec),
        ('S', 'E', 'D') => Some(Op::Sed),
        ('S', 'E', 'I') => Some(Op::Sei),
        ('S', 'T', 'A') => Some(Op::Sta),
        ('S', 'T', 'X') => Some(Op::Stx),
        ('S', 'T', 'Y') => Some(Op::Sty),
        ('T', 'A', 'X') => Some(Op::Tax),
        ('T', 'A', 'Y') => Some(Op::Tay),
        ('T', 'S', 'X') => Some(Op::Tsx),
        ('T', 'X', 'A') => Some(Op::Txa),
        ('T', 'X', 'S') => Some(Op::Txs),
        ('T', 'Y', 'A') => Some(Op::Tya),
        _ => None,
    }
}

/// The instruction whose upper-case mnemonic is `s`, if there is one.
pub open spec fn op_from_name(s: Seq<char>) -> Option<Op> {
    if s.len() == 3 {
        op_of_chars(s[0], s[1], s[2])
    } else {
        None
    }
}

impl Op {
    /// The instruction whose upper-case mnemonic is `name`.
    pub fn from_name(name: &str) -> (r: Option<Op>)
        ensures
            r == op_from_name(name@),
    {
        if name.unicode_len() != 3 {
            return None;
        }
        let c0 = name.get_char(0);
        let c1 = name.get_char(1);
        let c2 = name.get_char(2);
        match (c0, c1, c2) {
            ('A', 'D', 'C') => Some(Op::Adc),
            ('A', 'N', 'D') => Some(Op::And),
            ('A', 'S', 'L') => Some(Op::Asl),
            ('B', 'C', 'C') => Some(Op::Bcc),
            ('B', 'C', 'S') => Some(Op::Bcs),
            ('B', 'E', 'Q') => Some(Op::Beq),
            ('B', 'I', 'T') => Some(Op::Bit),
            ('B', 'M', 'I') => Some(Op::Bmi),
            ('B', 'N', 'E') => Some(Op::Bne),
            ('B', 'P', 'L') => Some(Op::Bpl),
            ('B', 'R', 'K') => Some(Op::Brk),
            ('B', 'V', 'C') => Some(Op::Bvc),
            ('B', 'V', 'S') => Some(Op::Bvs),
            ('C', 'L', 'C') => Some(Op::Clc),
            ('C', 'L', 'D') => Some(Op::Cld),
            ('C', 'L', 'I') => Some(Op::Cli),
            ('C', 'L', 'V') => Some(Op::Clv),
            ('C', 'M', 'P') => Some(Op::Cmp),
            ('C', 'P', 'X') => Some(Op::Cpx),
            ('C', 'P', 'Y') => Some(Op::Cpy),
            ('D', 'E', 'C') => Some(Op::Dec),
            ('D', 'E', 'X') => Some(Op::Dex),
            ('D', 'E', 'Y') => Some(Op::Dey),
            ('E', 'O', 'R') => Some(Op::Eor),
            ('I', 'N', 'C') => Some(Op::Inc),
            ('I', 'N', 'X') => Some(Op::Inx),
            ('I', 'N', 'Y') => Some(Op::Iny),
            ('J', 'M', 'P') => Some(Op::Jmp),
            ('J', 'S', 'R') => Some(Op::Jsr),
            ('L', 'D', 'A') => Some(Op::Lda),
            ('L', 'D', 'X') => Some(Op::Ldx),
            ('L', 'D', 'Y') => Some(Op::Ldy),
            ('L', 'S', 'R') => Some(Op::Lsr),
            ('N', 'O', 'P') => Some(Op::Nop),
            ('O', 'R', 'A') => Some(Op::Ora),
            ('P', 'H', 'A') => Some(Op::Pha),
            ('P', 'H', 'P') => Some(Op::Php),
            ('P', 'L', 'A') => Some(Op::Pla),
            ('P', 'L', 'P') => Some(Op::Plp),
            ('R', 'O', 'L') => Some(Op::Rol),
            ('R', 'O', 'R') => Some(Op::Ror),
            ('R', 'T', 'I') => Some(Op::Rti),
            ('R', 'T', 'S') => Some(Op::Rts),
            ('S', 'B', 'C') => Some(Op::Sbc),
            ('S', 'E', 'C') => Some(Op::Sec),
            ('S', 'E', 'D') => Some(Op::Sed),
            ('S', 'E', 'I') => Some(Op::Sei),
            ('S', 'T', 'A') => Some(Op::Sta),
            ('S', 'T', 'X') => Some(Op::Stx),
            ('S', 'T', 'Y') => Some(Op::Sty),
            ('T', 'A', 'X') => Some(Op::Tax),
            ('T', 'A', 'Y') => Some(Op::Tay),
            ('T', 'S', 'X') => Some(Op::Tsx),
            ('T', 'X', 'A') => Some(Op::Txa),
            ('T', 'X', 'S') => Some(Op::Txs),
            ('T', 'Y', 'A') => Some(Op::Tya),
            _ => None,
        }
    }
}

/// Every instruction is found again from its mnemonic.
pub proof fn lemma_op_name_round_trip(op: Op)
    ensures
        op_from_name(op_name(op)) == Some(op),
{
}

/// Address of the operand byte(s) that follow the opcode.
pub open spec fn arg_addr(reg: Reg) -> int {
    reg.pc + 1
}

/// `(indirect,X)`: the zero-page pointer `p + X` names two bytes, high then
/// low (at `p + X` and `p + X + 1`, both wrapping within page zero), that
/// form the address of the operand's address.
pub open spec fn ind_x_pointer(reg: Reg, mem: Seq<u8>) -> u16 {
    let p = mem[arg_addr(reg)];
    let h = mem[(p + reg.x) % 256];
    let l = mem[(p + (reg.x + 1) % 256) % 256];
    (h * 256 + l) as u16
}

/// `(indirect),Y`: the zero-page pointer `p` names two bytes, high then low;
/// adding Y to the word they form gives the address of the operand's address.
pub open spec fn ind_y_pointer(reg: Reg, mem: Seq<u8>) -> u16 {
    let p = mem[arg_addr(reg)];
    let h = mem[p as int];
    let l = mem[(p + 1) % 256];
    ((h * 256 + l + reg.y) % 0x10000) as u16
}

/// Whether resolving addressing mode `mode` reads only inside memory and
/// computes no out-of-range intermediate value.
pub open spec fn resolve_ok(reg: Reg, mem: Seq<u8>, mode: Addr) -> bool {
    let arg = arg_addr(reg);
    match mode {
        Addr::Acc | Addr::Imp => true,
        Addr::Imm | Addr::Rel | Addr::Zero | Addr::ZeroX | Addr::ZeroY => arg < MEM_SIZE,
        Addr::Abs | Addr::AbsX | Addr::AbsY => word_readable(arg as u16) && arg < MEM_SIZE,
        Addr::Ind => arg < MEM_SIZE && word_readable(arg as u16) && word_readable(word_at(mem, arg as u16)),
        Addr::IndX => arg < MEM_SIZE && word_readable(ind_x_pointer(reg, mem)),
        Addr::IndY => arg < MEM_SIZE && word_readable(ind_y_pointer(reg, mem)),
    }
}

/// The operand that addressing mode `mode` designates.
pub open spec fn resolve_spec(reg: Reg, mem: Seq<u8>, mode: Addr) -> Operand {
    let arg = arg_addr(reg);
    match mode {
        Addr::Acc => Operand::Acc,
        Addr::Imp => Operand::Imp,
        Addr::Imm | Addr::Rel => Operand::Imm(mem[arg]),
        Addr::Zero => Operand::Mem(mem[arg] as u16),
        Addr::ZeroX => Operand::Mem(((mem[arg] + reg.x) % 256) as u16),
        Addr::ZeroY => Operand::Mem(((mem[arg] + reg.y) % 256) as u16),
        Addr::Abs => Operand::Mem(word_at(mem, arg as u16)),
        Addr::AbsX => Operand::Mem(((word_at(mem, arg as u16) + reg.x) % 0x10000) as u16),
        Addr::AbsY => Operand::Mem(((word_at(mem, arg as u16) + reg.y) % 0x10000) as u16),
        Addr::Ind => Operand::Mem(word_at(mem, word_at(mem, arg as u16))),
        Addr::IndX => Operand::Mem(word_at(mem, ind_x_pointer(reg, mem))),
        Addr::IndY => Operand::Mem(word_at(mem, ind_y_pointer(reg, mem))),
    }
}

/// The `(indirect,X)` operand.
fn indirect_x(reg: &Reg, mmu: &Mmu) -> (o: Operand)
    requires
        resolve_ok(*reg, mmu@, Addr::IndX),
    ensures
        o == resolve_spec(*reg, mmu@, Addr::IndX),
{
    let p = mmu.get(reg.pc + 1);
    let h = mmu.get(p.wrapping_add(reg.x) as u16) as u16;
    let l = mmu.get(p.wrapping_add(reg.x.wrapping_add(1)) as u16) as u16;
    assert((h << 8u16) | l == h * 256 + l) by (bit_vector)
        requires
            h < 256,
            l < 256,
    ;
    let addr = mmu.get16(h << 8 | l);
    Operand::Mem(addr)
}

/// The `(indirect),Y` operand.
fn indirect_y(reg: &Reg, mmu: &Mmu) -> (o: Operand)
    requires
        resolve_ok(*reg, mmu@, Addr::IndY),
    ensures
        o == resolve_spec(*reg, mmu@, Addr::IndY),
{
    let p = mmu.get(reg.pc + 1);
    let h = mmu.get(p as u16) as u16;
    let l = mmu.get(p.wrapping_add(1) as u16) as u16;
    assert((h << 8u16) | l == h * 256 + l) by (bit_vector)
        requires
            h < 256,
            l < 256,
    ;
    let p = h << 8 | l;
    let addr = mmu.get16(p.wrapping_add(reg.y as u16));
    Operand::Mem(addr)
}

/// The operands read through the byte after the opcode: immediate, relative
/// and the zero-page modes.
fn byte_operand(reg: &Reg, mmu: &Mmu, mode: Addr) -> (o: Operand)
    requires
        mode is Imm || mode is Rel || mode is Zero || mode is ZeroX || mode is ZeroY,
        resolve_ok(*reg, mmu@, mode),
    ensures
        o == resolve_spec(*reg, mmu@, mode),
{
    let imm = mmu.get(reg.pc + 1);
    match mode {
        Addr::Zero => Operand::Mem(imm as u16),
        Addr::ZeroX => Operand::Mem(imm.wrapping_add(reg.x) as u16),
        Addr::ZeroY => Operand::Mem(imm.wrapping_add(reg.y) as u16),
        _ => Operand::Imm(imm),
    }
}

/// The operands read through the word after the opcode: the absolute modes
/// and indirect.
fn word_operand(reg: &Reg, mmu: &Mmu, mode: Addr) -> (o: Operand)
    requires
        mode is Abs || mode is AbsX || mode is AbsY || mode is Ind,
        resolve_ok(*reg, mmu@, mode),
    ensures
        o == resolve_spec(*reg, mmu@, mode),
{
    let imm = mmu.get16(reg.pc + 1);
    match mode {
        Addr::AbsX => Operand::Mem(imm.wrapping_add(reg.x as u16)),
        Addr::AbsY => Operand::Mem(imm.wrapping_add(reg.y as u16)),
        Addr::Ind => Operand::Mem(mmu.get16(imm)),
        _ => Operand::Mem(imm),
    }
}

/// The bookkeeping an entry starts with, and the operand its addressing mode
/// designates.
pub fn init(reg: &Reg, mmu: &Mmu, inst: &Inst) -> (r: (Context, Operand))
    requires
        resolve_ok(*reg, mmu@, inst.addr),
    ensures
        r == (Context { cycles: inst.cycles, jump: false }, resolve_spec(*reg, mmu@, inst.addr)),
{
    let ctx = Context::new(inst.cycles);
    let mem = match inst.addr {
        Addr::Acc => Operand::Acc,
        Addr::Imp => Operand::Imp,
        Addr::Imm | Addr::Rel | Addr::Zero | Addr::ZeroX | Addr::ZeroY => byte_operand(reg, mmu, inst.addr),
        Addr::Abs | Addr::AbsX | Addr::AbsY | Addr::Ind => word_operand(reg, mmu, inst.addr),
        Addr::IndX => indirect_x(reg, mmu),
        Addr::IndY => indirect_y(reg, mmu),
    };
    (ctx, mem)
}

/// Runs instruction `op` on its resolved operand.
pub fn apply(op: Op, reg: &mut Reg, ctx: &mut Context, mmu: &mut Mmu, mem: Operand)
    requires
        op_ok(op, *old(reg), mem, *old(ctx)),
    ensures
        (*final(reg), final(mmu)@, *final(ctx)) == op_effect(op, *old(reg), old(mmu)@, mem, *old(ctx)),
{
    match op {
        Op::Adc => adc(reg, ctx, mmu, mem),
        Op::And => and(reg, ctx, mmu, mem),
        Op::Asl => asl(reg, ctx, mmu, mem),
        Op::Bcc => bcc(reg, ctx, mmu, mem),
        Op::Bcs => bcs(reg, ctx, mmu, mem),
        Op::Beq => beq(reg, ctx, mmu, mem),
        Op::Bit => bit(reg, ctx, mmu, mem),
        Op::Bmi => bmi(reg, ctx, mmu, mem),
        Op::Bne => bne(reg, ctx, mmu, mem),
        Op::Bpl => bpl(reg, ctx, mmu, mem),
        Op::Brk => brk(reg, ctx, mmu, mem),
        Op::Bvc => bvc(reg, ctx, mmu, mem),
        Op::Bvs => bvs(reg, ctx, mmu, mem),
        Op::Clc => clc(reg, ctx, mmu, mem),
        Op::Cld => cld(reg, ctx, mmu, mem),
        Op::Cli => cli(reg, ctx, mmu, mem),
        Op::Clv => clv(reg, ctx, mmu, mem),
        Op::Cmp => cmp(reg, ctx, mmu, mem),
        Op::Cpx => cpx(reg, ctx, mmu, mem),
        Op::Cpy => cpy(reg, ctx, mmu, mem),
        Op::Dec => dec(reg, ctx, mmu, mem),
        Op::Dex => dex(reg, ctx, mmu, mem),
        Op::Dey => dey(reg, ctx, mmu, mem),
        Op::Eor => eor(reg, ctx, mmu, mem),
        Op::Inc => inc(reg, ctx, mmu, mem),
        Op::Inx => inx(reg, ctx, mmu, mem),
        Op::Iny => iny(reg, ctx, mmu, mem),
        Op::Jmp => jmp(reg, ctx, mmu, mem),
        Op::Jsr => jsr(reg, ctx, mmu, mem),
        Op::Lda => lda(reg, ctx, mmu, mem),
        Op::Ldx => ldx(reg, ctx, mmu, mem),
        Op::Ldy => ldy(reg, ctx, mmu, mem),
        Op::Lsr => lsr(reg, ctx, mmu, mem),
        Op::Nop => nop(reg, ctx, mmu, mem),
        Op::Ora => ora(reg, ctx, mmu, mem),
        Op::Pha => pha(reg, ctx, mmu, mem),
        Op::Php => php(reg, ctx, mmu, mem),
        Op::Pla => pla(reg, ctx, mmu, mem),
        Op::Plp => plp(reg, ctx, mmu, mem),
        Op::Rol => rol(reg, ctx, mmu, mem),
        Op::Ror => ror(reg, ctx, mmu, mem),
        Op::Rti => rti(reg, ctx, mmu, mem),
        Op::Rts => rts(reg, ctx, mmu, mem),
        Op::Sbc => sbc(reg, ctx, mmu, mem),
        Op::Sec => sec(reg, ctx, mmu, mem),
        Op::Sed => sed(reg, ctx, mmu, mem),
        Op::Sei => sei(reg, ctx, mmu, mem),
        Op::Sta => sta(reg, ctx, mmu, mem),
        Op::Stx => stx(reg, ctx, mmu, mem),
        Op::Sty => sty(reg, ctx, mmu, mem),
        Op::Tax => tax(reg, ctx, mmu, mem),
        Op::Tay => tay(reg, ctx, mmu, mem),
        Op::Tsx => tsx(reg, ctx, mmu, mem),
        Op::Txa => txa(reg, ctx, mmu, mem),
        Op::Txs => txs(reg, ctx, mmu, mem),
        Op::Tya => tya(reg, ctx, mmu, mem),
    }
}

/// Whether table entry `inst` can run as instruction `op` from this state.
pub open spec fn step_ok(op: Op, inst: Inst, reg: Reg, mem: Seq<u8>) -> bool {
    &&& resolve_ok(reg, mem, inst.addr)
    &&& op_ok(op, reg, resolve_spec(reg, mem, inst.addr), Context { cycles: inst.cycles, jump: false })
}

/// Registers, memory and cycles spent after running entry `inst` as
/// instruction `op`: the instruction runs on the operand its addressing mode
/// designates; unless it set the program counter itself, the program
/// counter then moves past the instruction (wrapping).
pub open spec fn step_spec(op: Op, inst: Inst, reg: Reg, mem: Seq<u8>) -> (Reg, Seq<u8>, usize) {
    let (r1, m1, ctx) = op_effect(
        op,
        reg,
        mem,
        resolve_spec(reg, mem, inst.addr),
        Context { cycles: inst.cycles, jump: false },
    );
    let r2 = if ctx.jump {
        r1
    } else {
        Reg { pc: ((r1.pc + (inst.len as u16)) % 0x10000) as u16, ..r1 }
    };
    (r2, m1, ctx.cycles)
}

/// Runs table entry `inst` as instruction `op` and returns the cycles spent.
pub fn step(op: Op, inst: &Inst, reg: &mut Reg, mmu: &mut Mmu) -> (cycles: usize)
    requires
        step_ok(op, *inst, *old(reg), old(mmu)@),
    ensures
        (*final(reg), final(mmu)@, cycles) == step_spec(op, *inst, *old(reg), old(mmu)@),
{
    let (mut ctx, mem) = init(reg, mmu, inst);
    apply(op, reg, &mut ctx, mmu, mem);
    if !ctx.jump {
        reg.pc = reg.pc.wrapping_add(inst.len as u16);
    }
    ctx.cycles
}

/// Running a `JSR` entry and then an implied-mode `RTS` entry continues
/// after the `JSR`: two bytes past its address, plus the `RTS` entry's
/// length (three for the usual one-byte `RTS`); the stack pointer is as before.
pub proof fn lemma_jsr_then_rts(jsr: Inst, rts: Inst, reg: Reg, mem: Seq<u8>)
    requires
        mem.len() == MEM_SIZE,
        step_ok(Op::Jsr, jsr, reg, mem),
        rts.addr == Addr::Imp,
    ensures
        ({
            let (r1, m1, c1) = step_spec(Op::Jsr, jsr, reg, mem);
            let (r2, m2, c2) = step_spec(Op::Rts, rts, r1, m1);
            &&& step_ok(Op::Rts, rts, r1, m1)
            &&& r2.pc == ((reg.pc + 2 + (rts.len as u16)) % 0x10000) as u16
            &&& r2.s == reg.s
        }),
{
    reveal(op_effect);
    let o = resolve_spec(reg, mem, jsr.addr);
    lemma_rts_after_jsr(reg, mem, operand_addr(o), Context { cycles: jsr.cycles, jump: false });
}

/// Entry `i` is the first entry of the table for `opcode`.
pub open spec fn decodes_at(insts: Seq<Inst>, opcode: u8, i: int) -> bool {
    &&& 0 <= i < insts.len()
    &&& insts[i].opcode == opcode
    &&& forall|j: int| 0 <= j < i ==> insts[j].opcode != opcode
}

/// The table entry that decodes the opcode at the program counter.
pub open spec fn decoded(insts: Seq<Inst>, reg: Reg, mem: Seq<u8>) -> int {
    choose|i: int| decodes_at(insts, mem[reg.pc as int], i)
}

/// The instruction of entry `i`.
pub open spec fn entry_op(insts: Seq<Inst>, i: int) -> Op {
    op_from_name(insts[i].name@)->0
}

/// Whether the next instruction can run: the opcode at the program counter
/// is in memory and in the table, the entry names a known instruction, and
/// that instruction can run on the operand it designates.
pub open spec fn execute_ok(reg: Reg, mem: Seq<u8>, insts: Seq<Inst>) -> bool {
    &&& reg.pc < MEM_SIZE
    &&& exists|i: int| decodes_at(insts, mem[reg.pc as int], i)
    &&& op_from_name(insts[decoded(insts, reg, mem)].name@) is Some
    &&& step_ok(entry_op(insts, decoded(insts, reg, mem)), insts[decoded(insts, reg, mem)], reg, mem)
}

/// Registers, memory and cycles after the next instruction.
pub open spec fn execute_spec(reg: Reg, mem: Seq<u8>, insts: Seq<Inst>) -> (Reg, Seq<u8>, usize) {
    let i = decoded(insts, reg, mem);
    step_spec(entry_op(insts, i), insts[i], reg, mem)
}

/// At most one entry is the first for an opcode.
proof fn lemma_decodes_at_unique(insts: Seq<Inst>, opcode: u8, i: int, j: int)
    requires
        decodes_at(insts, opcode, i),
        decodes_at(insts, opcode, j),
    ensures
        i == j,
{
}

/// The index of the first entry for `opcode`, or the table's length when it
/// has none.
fn find_opcode(insts: &Vec<Inst>, opcode: u8) -> (i: usize)
    ensures
        i <= insts@.len(),
        i < insts@.len() ==> decodes_at(insts@, opcode, i as int),
        i == insts@.len() ==> forall|j: int| 0 <= j < insts@.len() ==> insts@[j].opcode != opcode,
{
    let mut i: usize = 0;
    while i < insts.len()
        invariant
            i <= insts@.len(),
            forall|j: int| 0 <= j < i ==> insts@[j].opcode != opcode,
        decreases insts@.len() - i,
    {
        if insts[i].opcode == opcode {
            return i;
        }
        i += 1;
    }
    i
}

/// Fetches the opcode at the program counter, decodes it through the table
/// (the first entry for the opcode) and runs it; returns the cycles spent.
pub fn execute(reg: &mut Reg, mmu: &mut Mmu, insts: &Vec<Inst>) -> (cycles: usize)
    requires
        execute_ok(*old(reg), old(mmu)@, insts@),
    ensures
        (*final(reg), final(mmu)@, cycles) == execute_spec(*old(reg), old(mmu)@, insts@),
{
    let opcode = mmu.get(reg.pc);
    let i = find_opcode(insts, opcode);
    proof {
        let k = decoded(insts@, *reg, mmu@);
        if i == insts@.len() {
            assert(insts@[k].opcode != opcode);
        }
        lemma_decodes_at_unique(insts@, opcode, i as int, k);
    }
    let inst = &insts[i];
    let op = match Op::from_name(inst.name.as_str()) {
        Some(op) => op,
        None => {
            proof {
                assert(false);
            }
            Op::Nop
        },
    };
    step(op, inst, reg, mmu)
}

/// Whether addressing mode `mode` can be resolved from this state.
pub fn resolvable(reg: &Reg, mmu: &Mmu, mode: Addr) -> (b: bool)
    ensures
        b == resolve_ok(*reg, mmu@, mode),
{
    if reg.pc as usize + 1 >= MEM_SIZE {
        return match mode {
            Addr::Acc | Addr::Imp => true,
            _ => false,
        };
    }
    let arg = reg.pc + 1;
    match mode {
        Addr::Acc | Addr::Imp | Addr::Imm | Addr::Rel | Addr::Zero | Addr::ZeroX | Addr::ZeroY => true,
        Addr::Abs | Addr::AbsX | Addr::AbsY => (arg as usize) < MEM_SIZE - 1,
        Addr::Ind => (arg as usize) < MEM_SIZE - 1 && (mmu.get16(arg) as usize) < MEM_SIZE - 1,
        Addr::IndX => {
            let p = mmu.get(arg);
            let h = mmu.get(p.wrapping_add(reg.x) as u16) as u16;
            let l = mmu.get(p.wrapping_add(reg.x.wrapping_add(1)) as u16) as u16;
            assert((h << 8u16) | l == h * 256 + l) by (bit_vector)
                requires
                    h < 256,
                    l < 256,
            ;
            ((h << 8 | l) as usize) < MEM_SIZE - 1
        },
        Addr::IndY => {
            let p = mmu.get(arg);
            let h = mmu.get(p as u16) as u16;
            let l = mmu.get(p.wrapping_add(1) as u16) as u16;
            assert((h << 8u16) | l == h * 256 + l) by (bit_vector)
                requires
                    h < 256,
                    l < 256,
            ;
            let p = h << 8 | l;
            (p.wrapping_add(reg.y as u16) as usize) < MEM_SIZE - 1
        },
    }
}

/// Whether instruction `op` can run on operand `mem`.
pub fn runnable(op: Op, reg: &Reg, mem: Operand, ctx: &Context) -> (b: bool)
    ensures
        b == op_ok(op, *reg, mem, *ctx),
{
    let readable = match mem {
        Operand::Acc | Operand::Imm(_) => true,
        Operand::Mem(a) => (a as usize) < MEM_SIZE,
        Operand::Imp => false,
    };
    let writable = match mem {
        Operand::Acc => true,
        Operand::Mem(a) => (a as usize) < MEM_SIZE,
        _ => false,
    };
    let is_mem = match mem {
        Operand::Mem(_) => true,
        _ => false,
    };
    match op {
        Op::Adc | Op::And | Op::Bit | Op::Cmp | Op::Cpx | Op::Cpy | Op::Eor | Op::Lda | Op::Ldx
        | Op::Ldy | Op::Ora | Op::Sbc => readable,
        Op::Bcc | Op::Bcs | Op::Beq | Op::Bmi | Op::Bne | Op::Bpl | Op::Bvc | Op::Bvs => {
            readable && ctx.cycles <= usize::MAX - 2
        },
        Op::Dec | Op::Inc | Op::Lsr | Op::Rol | Op::Ror => readable && writable,
        Op::Sta | Op::Stx | Op::Sty => writable,
        Op::Brk => reg.pc <= u16::MAX - 2,
        Op::Jsr => reg.pc <= u16::MAX - 2 && is_mem,
        Op::Jmp => is_mem,
        _ => true,
    }
}

/// Whether `execute` can run the next instruction from this state, that is
/// `execute_ok`.
pub fn can_execute(reg: &Reg, mmu: &Mmu, insts: &Vec<Inst>) -> (b: bool)
    ensures
        b == execute_ok(*reg, mmu@, insts@),
{
    if reg.pc as usize >= MEM_SIZE {
        return false;
    }
    let opcode = mmu.get(reg.pc);
    let i = find_opcode(insts, opcode);
    if i == insts.len() {
        assert(forall|k: int| !decodes_at(insts@, opcode, k));
        return false;
    }
    proof {
        let k = decoded(insts@, *reg, mmu@);
        lemma_decodes_at_unique(insts@, opcode, i as int, k);
    }
    let inst = &insts[i];
    match Op::from_name(inst.name.as_str()) {
        None => false,
        Some(op) => {
            if !resolvable(reg, mmu, inst.addr) {
                return false;
            }
            let (ctx, mem) = init(reg, mmu, inst);
            runnable(op, reg, mem, &ctx)
        },
    }
}

} // verus!
