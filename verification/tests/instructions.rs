use nes::ops::{
    adc, and, asl, bcc, beq, bit, bne, brk, cmp, dec, eor, inc, jmp, jsr, lda, lsr, ora, pha, pla, php,
    plp, rol, ror, rti, rts, sbc, sec, sta, tax, txs,
};
use nes::{Context, Mmu, Operand, Reg, B, C, N, V, Z};

fn setup() -> (Reg, Context, Mmu) {
    let mut r = Reg::new();
    r.p = 0;
    (r, Context::new(2), Mmu::new())
}

#[test]
fn adc_adds_carry_and_sets_carry_out() {
    let (mut r, mut c, mut m) = setup();
    r.a = 0xf0;
    r.p = C;
    adc(&mut r, &mut c, &mut m, Operand::Imm(0x10));
    assert_eq!(r.a, 0x01);
    assert_eq!(r.p, C);
    adc(&mut r, &mut c, &mut m, Operand::Imm(0x7e));
    assert_eq!(r.a, 0x80);
    assert_eq!(r.p, N);
}

#[test]
fn adc_zero_result() {
    let (mut r, mut c, mut m) = setup();
    r.a = 0xff;
    adc(&mut r, &mut c, &mut m, Operand::Imm(0x01));
    assert_eq!(r.a, 0);
    assert_eq!(r.p, C | Z);
}

#[test]
fn sbc_borrows_when_smaller() {
    let (mut r, mut c, mut m) = setup();
    r.a = 0x05;
    sbc(&mut r, &mut c, &mut m, Operand::Imm(0x03));
    assert_eq!(r.a, 0x02);
    assert_eq!(r.p, 0);
    r.p = C;
    sbc(&mut r, &mut c, &mut m, Operand::Imm(0x02));
    assert_eq!(r.a, 0xff);
    assert_eq!(r.p, C | N);
}

#[test]
fn cmp_sets_carry_on_less() {
    let (mut r, mut c, mut m) = setup();
    r.a = 0x10;
    cmp(&mut r, &mut c, &mut m, Operand::Imm(0x10));
    assert_eq!(r.p, Z);
    cmp(&mut r, &mut c, &mut m, Operand::Imm(0x20));
    assert_eq!(r.p, C | N);
    assert_eq!(r.a, 0x10);
}

#[test]
fn asl_shifts_accumulator_and_clears_carry() {
    let (mut r, mut c, mut m) = setup();
    r.a = 0xc1;
    r.p = C;
    asl(&mut r, &mut c, &mut m, Operand::Acc);
    assert_eq!(r.a, 0x82);
    assert_eq!(r.p, N);
}

#[test]
fn lsr_shifts_memory() {
    let (mut r, mut c, mut m) = setup();
    m.set(0x40, 0x03);
    lsr(&mut r, &mut c, &mut m, Operand::Mem(0x40));
    assert_eq!(m.get(0x40), 0x01);
    assert_eq!(r.p, 0);
}

#[test]
fn rol_and_ror_take_in_carry() {
    let (mut r, mut c, mut m) = setup();
    r.a = 0x40;
    r.p = C;
    rol(&mut r, &mut c, &mut m, Operand::Acc);
    assert_eq!(r.a, 0x81);
    assert_eq!(r.p, N);
    r.a = 0x02;
    r.p = C;
    ror(&mut r, &mut c, &mut m, Operand::Acc);
    assert_eq!(r.a, 0x81);
    assert_eq!(r.p, N);
}

#[test]
fn logic_ops() {
    let (mut r, mut c, mut m) = setup();
    r.a = 0b1100;
    and(&mut r, &mut c, &mut m, Operand::Imm(0b1010));
    assert_eq!(r.a, 0b1000);
    ora(&mut r, &mut c, &mut m, Operand::Imm(0b0001));
    assert_eq!(r.a, 0b1001);
    eor(&mut r, &mut c, &mut m, Operand::Imm(0b1001));
    assert_eq!(r.a, 0);
    assert_eq!(r.p, Z);
}

#[test]
fn bit_tests_masked_value() {
    let (mut r, mut c, mut m) = setup();
    r.a = 0xff;
    bit(&mut r, &mut c, &mut m, Operand::Imm(0xc0));
    assert_eq!(r.p, N | V);
    r.a = 0x01;
    bit(&mut r, &mut c, &mut m, Operand::Imm(0xc0));
    assert_eq!(r.p, Z);
    assert_eq!(r.a, 0x01);
}

#[test]
fn inc_dec_memory_wrap() {
    let (mut r, mut c, mut m) = setup();
    m.set(0x10, 0xff);
    inc(&mut r, &mut c, &mut m, Operand::Mem(0x10));
    assert_eq!(m.get(0x10), 0);
    assert_eq!(r.p, Z);
    dec(&mut r, &mut c, &mut m, Operand::Mem(0x10));
    assert_eq!(m.get(0x10), 0xff);
    assert_eq!(r.p, N);
}

#[test]
fn loads_stores_and_transfers() {
    let (mut r, mut c, mut m) = setup();
    lda(&mut r, &mut c, &mut m, Operand::Imm(0x42));
    sta(&mut r, &mut c, &mut m, Operand::Mem(0x300));
    assert_eq!(m.get(0x300), 0x42);
    tax(&mut r, &mut c, &mut m, Operand::Imp);
    assert_eq!(r.x, 0x42);
    r.x = 0;
    txs(&mut r, &mut c, &mut m, Operand::Imp);
    assert_eq!(r.s, 0);
    assert_eq!(r.p, Z);
}

#[test]
fn branches_taken_and_not_taken() {
    let (mut r, mut c, mut m) = setup();
    r.pc = 0x100;
    bcc(&mut r, &mut c, &mut m, Operand::Imm(0x10));
    assert_eq!(r.pc, 0x110);
    assert_eq!(c.cycles, 3);
    beq(&mut r, &mut c, &mut m, Operand::Imm(0x10));
    assert_eq!(r.pc, 0x110);
    assert_eq!(c.cycles, 3);
    bne(&mut r, &mut c, &mut m, Operand::Imm(0xf0));
    assert_eq!(r.pc, 0x100);
    assert_eq!(c.cycles, 4);
}

#[test]
fn jmp_and_jsr_rts() {
    let (mut r, mut c, mut m) = setup();
    r.s = 0xfd;
    r.pc = 0x0123;
    jsr(&mut r, &mut c, &mut m, Operand::Mem(0x0400));
    assert_eq!(r.pc, 0x0400);
    assert!(c.jump);
    assert_eq!(m.get(0x1fd), 0x01);
    assert_eq!(m.get(0x1fc), 0x25);
    let mut c2 = Context::new(6);
    rts(&mut r, &mut c2, &mut m, Operand::Imp);
    assert_eq!(r.pc, 0x0125);
    assert!(!c2.jump);
    let mut c3 = Context::new(3);
    jmp(&mut r, &mut c3, &mut m, Operand::Mem(0x0800));
    assert_eq!(r.pc, 0x0800);
    assert!(c3.jump);
}

#[test]
fn stack_instructions() {
    let (mut r, mut c, mut m) = setup();
    r.s = 0xfd;
    r.a = 0x80;
    pha(&mut r, &mut c, &mut m, Operand::Imp);
    r.a = 0;
    pla(&mut r, &mut c, &mut m, Operand::Imp);
    assert_eq!(r.a, 0x80);
    assert_eq!(r.p, N);
    r.p = 0x55;
    php(&mut r, &mut c, &mut m, Operand::Imp);
    r.p = 0;
    plp(&mut r, &mut c, &mut m, Operand::Imp);
    assert_eq!(r.p, 0x55);
    assert_eq!(r.s, 0xfd);
}

#[test]
fn brk_then_rti() {
    let (mut r, mut c, mut m) = setup();
    r.s = 0xfd;
    r.pc = 0x0200;
    r.p = 0x01;
    brk(&mut r, &mut c, &mut m, Operand::Imp);
    assert_eq!(r.p, 0x01 | B);
    assert_eq!(r.s, 0xfa);
    assert_eq!(m.get(0x1fb), 0x01);
    sec(&mut r, &mut c, &mut m, Operand::Imp);
    rti(&mut r, &mut c, &mut m, Operand::Imp);
    assert_eq!(r.p, 0x01);
    assert_eq!(r.pc, 0x0202);
    assert_eq!(r.s, 0xfd);
}
