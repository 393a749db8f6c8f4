use nes::{Mmu, Reg, MEM_SIZE};

#[test]
fn new_memory_is_zero() {
    let m = Mmu::new();
    assert_eq!(m.get(0), 0);
    assert_eq!(m.get((MEM_SIZE - 1) as u16), 0);
}

#[test]
fn read_after_write() {
    let mut m = Mmu::new();
    m.set(0x123, 0x45);
    assert_eq!(m.get(0x123), 0x45);
    assert_eq!(m.get(0x122), 0);
    assert_eq!(m.get(0x124), 0);
    m.set(0x123, 0x67);
    assert_eq!(m.get(0x123), 0x67);
}

#[test]
fn word_is_high_byte_first() {
    let mut m = Mmu::new();
    m.set(0x10, 0x12);
    m.set(0x11, 0x34);
    assert_eq!(m.get16(0x10), 0x1234);
}

#[test]
fn ref_reads_and_writes_its_byte() {
    let mut m = Mmu::new();
    {
        let mut r = m.getref(0x200);
        assert_eq!(r.addr(), 0x200);
        assert_eq!(r.get(), 0);
        r.set(0x99);
        assert_eq!(r.get(), 0x99);
    }
    assert_eq!(m.get(0x200), 0x99);
    assert_eq!(m.get(0x201), 0);
}

#[test]
fn push_then_pop() {
    let mut m = Mmu::new();
    let mut r = Reg::new();
    r.push(&mut m, 0xab);
    assert_eq!(r.s, 0xfc);
    assert_eq!(m.get(0x1fd), 0xab);
    assert_eq!(r.pop(&mut m), 0xab);
    assert_eq!(r.s, 0xfd);
}

#[test]
fn stack_pointer_wraps() {
    let mut m = Mmu::new();
    let mut r = Reg::new();
    r.s = 0;
    r.push(&mut m, 7);
    assert_eq!(r.s, 0xff);
    assert_eq!(m.get(0x100), 7);
    assert_eq!(r.pop(&mut m), 7);
    assert_eq!(r.s, 0);
}

#[test]
fn push16_then_pop16() {
    let mut m = Mmu::new();
    let mut r = Reg::new();
    r.push16(&mut m, 0xbeef);
    assert_eq!(r.s, 0xfb);
    assert_eq!(m.get(0x1fd), 0xbe);
    assert_eq!(m.get(0x1fc), 0xef);
    assert_eq!(r.pop16(&mut m), 0xbeef);
    assert_eq!(r.s, 0xfd);
}
