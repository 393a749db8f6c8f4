use nes::{reljump, Context, Imm, Imp, RegRef};

#[test]
fn register_operand() {
    let mut a: u8 = 0x3c;
    {
        let mut r = RegRef::new(&mut a);
        assert_eq!(r.get(), 0x3c);
        assert_eq!(r.inspect(), ", acc=3c");
        r.set(0x05);
        assert_eq!(r.get(), 0x05);
    }
    assert_eq!(a, 0x05);
}

#[test]
fn immediate_operand() {
    let i = Imm::new(0xa0);
    assert_eq!(i.get(), 0xa0);
    assert_eq!(i.inspect(), ", imm=a0");
    assert_eq!(Imm::new(7).inspect(), ", imm=07");
}

#[test]
fn implied_operand() {
    assert_eq!(Imp::new().inspect(), "");
}

#[test]
fn context_counts_cycles() {
    let mut c = Context::new(2);
    assert_eq!(c.cycles, 2);
    assert!(!c.jump);
    c.wait(3);
    assert_eq!(c.cycles, 5);
    c.jump();
    assert!(c.jump);
}

#[test]
fn relative_jump_forward_same_page() {
    let mut r = nes::Reg::new();
    let mut c = Context::new(2);
    r.pc = 0x0210;
    reljump(&mut r, &mut c, 0x05);
    assert_eq!(r.pc, 0x0215);
    assert_eq!(c.cycles, 3);
}

#[test]
fn relative_jump_backward_across_page() {
    let mut r = nes::Reg::new();
    let mut c = Context::new(2);
    r.pc = 0x0201;
    reljump(&mut r, &mut c, 0xfc);
    assert_eq!(r.pc, 0x01fd);
    assert_eq!(c.cycles, 4);
}

#[test]
fn relative_jump_wraps_address_space() {
    let mut r = nes::Reg::new();
    let mut c = Context::new(0);
    r.pc = 0x0000;
    reljump(&mut r, &mut c, 0xff);
    assert_eq!(r.pc, 0xffff);
    assert_eq!(c.cycles, 2);
}
