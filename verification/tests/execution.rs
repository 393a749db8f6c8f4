use nes::exec::{init, step};
use nes::{can_execute, execute, Addr, Context, Inst, Mmu, Op, Operand, Reg, Z};

fn entry(name: &str, opcode: u8, addr: Addr, len: usize, cycles: usize) -> Inst {
    Inst {
        name: name.to_string(),
        desc: String::new(),
        mnem: String::new(),
        opcode,
        addr,
        len,
        cycles,
        state: vec![],
    }
}

fn table() -> Vec<Inst> {
    vec![
        entry("LDA", 0xa9, Addr::Imm, 2, 2),
        entry("STA", 0x85, Addr::Zero, 2, 3),
        entry("JMP", 0x4c, Addr::Abs, 3, 3),
        entry("INX", 0xe8, Addr::Imp, 1, 2),
        entry("BNE", 0xd0, Addr::Rel, 2, 2),
        entry("LDA", 0xa9, Addr::Zero, 2, 9),
        entry("XYZ", 0x02, Addr::Imp, 1, 2),
    ]
}

#[test]
fn op_from_name() {
    assert!(matches!(Op::from_name("ADC"), Some(Op::Adc)));
    assert!(matches!(Op::from_name("TYA"), Some(Op::Tya)));
    assert!(Op::from_name("adc").is_none());
    assert!(Op::from_name("ADCX").is_none());
    assert!(Op::from_name("").is_none());
}

#[test]
fn runs_a_small_program() {
    let insts = table();
    let mut m = Mmu::new();
    let prog = [0xa9u8, 0x00, 0x85, 0x20, 0xe8, 0xd0, 0xfd, 0x4c, 0x00, 0x00];
    for (i, b) in prog.iter().enumerate() {
        m.set(0x600 + i as u16, *b);
    }
    let mut r = Reg::new();
    r.pc = 0x600;
    assert!(can_execute(&r, &m, &insts));
    assert_eq!(execute(&mut r, &mut m, &insts), 2);
    assert_eq!(r.a, 0);
    assert_eq!(r.pc, 0x602);
    assert_eq!(r.p & Z, Z);
    assert_eq!(execute(&mut r, &mut m, &insts), 3);
    assert_eq!(m.get(0x20), 0);
    assert_eq!(r.pc, 0x604);
    let mut total = 0;
    let mut steps = 0;
    while r.pc != 0x607 {
        assert!(can_execute(&r, &m, &insts));
        total += execute(&mut r, &mut m, &insts);
        steps += 1;
    }
    assert_eq!(r.x, 0);
    assert_eq!(steps, 512);
    assert!(total > 0);
    assert_eq!(execute(&mut r, &mut m, &insts), 3);
    assert_eq!(r.pc, 0x0000);
}

#[test]
fn first_entry_for_an_opcode_wins() {
    let insts = table();
    let mut m = Mmu::new();
    m.set(0, 0xa9);
    m.set(1, 0x33);
    let mut r = Reg::new();
    assert_eq!(execute(&mut r, &mut m, &insts), 2);
    assert_eq!(r.a, 0x33);
}

#[test]
fn cannot_execute_unknown_or_out_of_range() {
    let insts = table();
    let mut m = Mmu::new();
    let mut r = Reg::new();
    m.set(0, 0xff);
    assert!(!can_execute(&r, &m, &insts));
    m.set(0, 0x02);
    assert!(!can_execute(&r, &m, &insts));
    r.pc = 0x1000;
    assert!(!can_execute(&r, &m, &insts));
    r.pc = 0x0ffe;
    m.set(0x0ffe, 0x4c);
    assert!(!can_execute(&r, &m, &insts));
}

#[test]
fn addressing_modes() {
    let mut m = Mmu::new();
    let mut r = Reg::new();
    r.pc = 0x10;
    r.x = 2;
    r.y = 3;
    m.set(0x11, 0x40);
    m.set(0x12, 0x05);
    let e = |a| entry("NOP", 0, a, 1, 4);
    assert!(matches!(init(&r, &m, &e(Addr::Imm)).1, Operand::Imm(0x40)));
    assert!(matches!(init(&r, &m, &e(Addr::Zero)).1, Operand::Mem(0x40)));
    assert!(matches!(init(&r, &m, &e(Addr::ZeroX)).1, Operand::Mem(0x42)));
    assert!(matches!(init(&r, &m, &e(Addr::ZeroY)).1, Operand::Mem(0x43)));
    assert!(matches!(init(&r, &m, &e(Addr::Abs)).1, Operand::Mem(0x4005)));
    assert!(matches!(init(&r, &m, &e(Addr::AbsX)).1, Operand::Mem(0x4007)));
    assert!(matches!(init(&r, &m, &e(Addr::AbsY)).1, Operand::Mem(0x4008)));
    assert!(matches!(init(&r, &m, &e(Addr::Acc)).1, Operand::Acc));
    assert!(matches!(init(&r, &m, &e(Addr::Imp)).1, Operand::Imp));
    let (ctx, _) = init(&r, &m, &e(Addr::Imp));
    assert_eq!(ctx.cycles, 4);
    assert!(!ctx.jump);
}

#[test]
fn indirect_modes() {
    let mut m = Mmu::new();
    let mut r = Reg::new();
    r.pc = 0x10;
    r.x = 1;
    r.y = 2;
    m.set(0x11, 0x30);
    m.set(0x12, 0x00);
    m.set(0x30, 0x02);
    m.set(0x31, 0x00);
    m.set(0x32, 0x07);
    m.set(0x200, 0x0a);
    m.set(0x201, 0xbc);
    let e = |a| entry("NOP", 0, a, 1, 4);
    // (indirect,X): pointer bytes at 0x31 (high) and 0x32 (low) form 0x0007;
    // the word at 0x0007 is the operand's address.
    m.set(0x07, 0x01);
    m.set(0x08, 0x23);
    assert!(matches!(init(&r, &m, &e(Addr::IndX)).1, Operand::Mem(0x0123)));
    // (indirect),Y: bytes at 0x30 (high) and 0x31 (low) form 0x0200, plus Y is 0x0202.
    m.set(0x202, 0x04);
    m.set(0x203, 0x56);
    assert!(matches!(init(&r, &m, &e(Addr::IndY)).1, Operand::Mem(0x0456)));
    // indirect: the word after the opcode is 0x3000... out of memory; use 0x0200.
    m.set(0x11, 0x02);
    assert!(matches!(init(&r, &m, &e(Addr::Ind)).1, Operand::Mem(0x0abc)));
}

#[test]
fn step_advances_unless_jumping() {
    let mut m = Mmu::new();
    let mut r = Reg::new();
    r.pc = 0x20;
    let inx = entry("INX", 0xe8, Addr::Imp, 1, 2);
    assert_eq!(step(Op::Inx, &inx, &mut r, &mut m), 2);
    assert_eq!(r.pc, 0x21);
    assert_eq!(r.x, 1);
    m.set(0x22, 0x01);
    m.set(0x23, 0x00);
    let jmp = entry("JMP", 0x4c, Addr::Abs, 3, 3);
    assert_eq!(step(Op::Jmp, &jmp, &mut r, &mut m), 3);
    assert_eq!(r.pc, 0x0100);
    let _ = Context::new(0);
}

#[test]
fn subroutine_call_and_return() {
    let insts = vec![
        entry("JSR", 0x20, Addr::Abs, 3, 6),
        entry("RTS", 0x60, Addr::Imp, 1, 6),
        entry("INX", 0xe8, Addr::Imp, 1, 2),
    ];
    let mut m = Mmu::new();
    // 0x100: JSR $0300 ; 0x103: INX ; 0x300: RTS
    m.set(0x100, 0x20);
    m.set(0x101, 0x03);
    m.set(0x102, 0x00);
    m.set(0x103, 0xe8);
    m.set(0x300, 0x60);
    let mut r = Reg::new();
    r.pc = 0x100;
    assert_eq!(execute(&mut r, &mut m, &insts), 6);
    assert_eq!(r.pc, 0x300);
    assert_eq!(r.s, 0xfb);
    assert_eq!(execute(&mut r, &mut m, &insts), 6);
    assert_eq!(r.pc, 0x103);
    assert_eq!(r.s, 0xfd);
    execute(&mut r, &mut m, &insts);
    assert_eq!(r.x, 1);
}

#[test]
fn indexed_indirect_wraps_in_page_zero() {
    let mut m = Mmu::new();
    let mut r = Reg::new();
    r.pc = 0x10;
    r.x = 0xff;
    m.set(0x11, 0x30);
    // pointer bytes at 0x30 + 0xff = 0x2f (high) and 0x30 + 0x00 = 0x30 (low)
    m.set(0x2f, 0x00);
    m.set(0x30, 0x40);
    m.set(0x40, 0x02);
    m.set(0x41, 0x34);
    let e = entry("LDA", 0xa1, Addr::IndX, 2, 6);
    assert!(matches!(init(&r, &m, &e).1, Operand::Mem(0x0234)));
    let insts = vec![e];
    m.set(0x10, 0xa1);
    m.set(0x234, 0x77);
    assert!(can_execute(&r, &m, &insts));
    assert_eq!(execute(&mut r, &mut m, &insts), 6);
    assert_eq!(r.a, 0x77);
}
