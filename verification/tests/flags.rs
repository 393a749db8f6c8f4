use nes::{Reg, B, C, D, I, N, V, Z};

#[test]
fn flg_c() {
    let mut r = Reg::new();
    r.p = 0xf0;
    r.set_flag(C);
    assert_eq!(r.p, 0xf1);
    r.unset_flag(C);
    assert_eq!(r.p, 0xf0);
}

#[test]
fn flg_z() {
    let mut r = Reg::new();
    r.p = 0xf0;
    r.assign_z(0);
    assert_eq!(r.p, 0xf2);
    r.assign_z(10);
    assert_eq!(r.p, 0xf0);
}

#[test]
fn flg_i() {
    let mut r = Reg::new();
    r.p = 0xf0;
    r.set_flag(I);
    assert_eq!(r.p, 0xf4);
    r.unset_flag(I);
    assert_eq!(r.p, 0xf0);
}

#[test]
fn flg_d() {
    let mut r = Reg::new();
    r.p = 0xf0;
    r.set_flag(D);
    assert_eq!(r.p, 0xf8);
    r.unset_flag(D);
    assert_eq!(r.p, 0xf0);
}

#[test]
fn flg_b() {
    let mut r = Reg::new();
    r.p = 0x0f;
    r.set_flag(B);
    assert_eq!(r.p, 0x1f);
    r.unset_flag(B);
    assert_eq!(r.p, 0x0f);
}

#[test]
fn flg_v() {
    let mut r = Reg::new();
    r.p = 0x0f;
    r.set_flag(V);
    assert_eq!(r.p, 0x4f);
    r.unset_flag(V);
    assert_eq!(r.p, 0x0f);
}

#[test]
fn flg_n() {
    let mut r = Reg::new();
    r.p = 0x0f;
    r.assign_n(0x80);
    assert_eq!(r.p, 0x8f);
    r.assign_n(0x30);
    assert_eq!(r.p, 0x0f);
}

#[test]
fn carry_assign_and_read() {
    let mut r = Reg::new();
    r.p = 0x00;
    r.assign_c(true);
    assert_eq!(r.flag(C), 0x01);
    assert_eq!(r.p, 0x01);
    r.assign_c(false);
    assert_eq!(r.flag(C), 0x00);
}

#[test]
fn overflow_assign_copies_bit_six() {
    let mut r = Reg::new();
    r.p = 0x00;
    r.assign_v(0x40);
    assert_eq!(r.p, 0x40);
    r.assign_v(0xbf);
    assert_eq!(r.p, 0x00);
}

#[test]
fn nz_from_value() {
    let mut r = Reg::new();
    r.p = 0x00;
    r.assign_nz(0x00);
    assert_eq!(r.p, Z);
    r.assign_nz(0x90);
    assert_eq!(r.p, N);
    r.assign_nz(0x01);
    assert_eq!(r.p, 0x00);
}

#[test]
fn power_on_registers() {
    let r = Reg::new();
    assert_eq!((r.pc, r.a, r.x, r.y, r.s, r.p), (0, 0, 0, 0, 0xfd, 0x34));
}
