use nes::inst::{funcname, parse_addr};
use nes::parser::{Parser, State};
use nes::{load_by_name, Addr, Inst};

#[test]
fn addressing_mode_names() {
    assert_eq!(parse_addr("accumulator"), Ok(Addr::Acc));
    assert_eq!(parse_addr("immidiate"), Ok(Addr::Imm));
    assert_eq!(parse_addr("(indirect),Y"), Ok(Addr::IndY));
    assert_eq!("zeropage,X".parse::<Addr>(), Ok(Addr::ZeroX));
    assert_eq!(
        parse_addr("immediate"),
        Err("Unknown addressing mode: immediate".to_string())
    );
}

fn entry(name: &str, opcode: u8) -> Inst {
    Inst {
        name: name.to_string(),
        desc: String::new(),
        mnem: String::new(),
        opcode,
        addr: Addr::Imp,
        len: 1,
        cycles: 2,
        state: vec![],
    }
}

#[test]
fn entries_by_name() {
    let insts = vec![entry("LDA", 1), entry("STA", 2), entry("LDA", 3)];
    let found = load_by_name(insts.clone(), "lda");
    assert_eq!(found.len(), 2);
    assert_eq!(found[0].opcode, 1);
    assert_eq!(found[1].opcode, 3);
    assert_eq!(load_by_name(insts.clone(), "Sta").len(), 1);
    assert_eq!(load_by_name(insts, "nop").len(), 0);
}

const ADC: &str = "ADC  Add Memory to Accumulator with Carry

     A + M + C -> A, C                N Z C I D V
                                      + + + - - +

     addressing    assembler    opc  bytes  cyles
     --------------------------------------------
     immidiate     ADC #oper     69    2     2
     zeropage      ADC oper      65    2     3
     absolute,X    ADC oper,X    7D    3     4*

";

#[test]
fn reads_an_instruction() {
    let mut p = Parser::new();
    for l in ADC.lines() {
        assert!(p.try_parse(l));
    }
    assert_eq!(p.state, State::Name);
    assert_eq!(p.insts.len(), 3);
    let i = &p.insts[0];
    assert_eq!(i.name, "ADC");
    assert_eq!(i.desc, "Add Memory to Accumulator with Carry");
    assert_eq!(i.mnem, "ADC #oper");
    assert_eq!(i.opcode, 0x69);
    assert_eq!(i.addr, Addr::Imm);
    assert_eq!(i.len, 2);
    assert_eq!(i.cycles, 2);
    assert_eq!(i.state, vec!["+", "+", "+", "-", "-", "+"]);
    let j = &p.insts[2];
    assert_eq!(j.opcode, 0x7d);
    assert_eq!(j.addr, Addr::AbsX);
    assert_eq!(j.cycles, 4);
    assert_eq!(j.mnem, "ADC oper,X");
}

#[test]
fn refuses_unknown_mode_line() {
    let mut p = Parser::new();
    p.state = State::Ops;
    assert!(!p.try_parse("sideways  XYZ 12 2 2"));
    assert_eq!(p.insts.len(), 0);
    assert_eq!(p.state, State::Ops);
    assert!(!p.try_parse("implied  NOP EA 1"));
    assert!(p.try_parse("implied  NOP EA 1 2"));
    assert_eq!(p.insts[0].opcode, 0xea);
}

#[test]
fn lines_that_do_not_match_are_skipped() {
    let mut p = Parser::new();
    assert!(p.try_parse("not a title"));
    assert_eq!(p.state, State::Name);
    assert!(p.try_parse("BRK Force Break"));
    assert_eq!(p.state, State::Flg);
    assert_eq!(p.name, "BRK");
    assert_eq!(p.desc, "Force Break");
}

#[test]
fn generated_function_names() {
    assert_eq!(funcname(&entry("ADC", 0x69)), "adc_69");
    assert_eq!(funcname(&entry("BRK", 0x00)), "brk_00");
}
