use nes::{Header, Rom, RomError};

fn image(prg_units: u8, chr_units: u8, flags: u8, extra: usize) -> Vec<u8> {
    let mut v = vec![0x4e, 0x45, 0x53, 0x1a, prg_units, chr_units, flags];
    v.resize(16, 0);
    let trainer = if flags & 0x04 != 0 { 512 } else { 0 };
    let body = trainer + prg_units as usize * 16 * 1024 + chr_units as usize * 8 * 1024 + extra;
    for i in 0..body {
        v.push((i % 251) as u8);
    }
    v
}

#[test]
fn header_fields() {
    let rom = image(2, 1, 0x04, 0);
    let h = Header::new(&rom);
    assert_eq!(h.prg_len(), 32 * 1024);
    assert_eq!(h.chr_len(), 8 * 1024);
    assert!(h.trainer);
}

#[test]
fn loads_payload_after_header() {
    let rom = image(1, 1, 0, 3);
    assert_eq!(Rom::validate(&rom), Ok(()));
    let r = Rom::new(&rom);
    assert_eq!(r.header().prg_len(), 16 * 1024);
    assert_eq!(r.prg().len(), 16 * 1024);
    assert_eq!(r.prg()[0], 0);
    assert_eq!(r.prg()[300], (300 % 251) as u8);
}

#[test]
fn skips_trainer() {
    let rom = image(1, 0, 0x04, 0);
    let r = Rom::new(&rom);
    assert_eq!(r.prg()[0], (512 % 251) as u8);
    let c = r.clone();
    assert_eq!(c.prg(), r.prg());
}

#[test]
fn rejects_bad_magic() {
    let mut rom = image(1, 0, 0, 0);
    rom[0] = 0x4f;
    assert_eq!(Rom::validate(&rom), Err(RomError::InvalidHeader));
    assert_eq!(Rom::validate(&[0x4e, 0x45, 0x53]), Err(RomError::InvalidHeader));
}

#[test]
fn rejects_short_image() {
    let mut rom = image(1, 1, 0, 0);
    rom.pop();
    assert_eq!(Rom::validate(&rom), Err(RomError::TooShort));
    let rom = vec![0x4e, 0x45, 0x53, 0x1a, 0, 0, 0x04];
    assert_eq!(Rom::validate(&rom), Err(RomError::TooShort));
}

#[test]
fn ppu_reads_zero() {
    let p = nes::Ppu::new();
    p.set(1, 5);
    assert_eq!(p.get(1), 0);
}
