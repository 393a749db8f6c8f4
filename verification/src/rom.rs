//! iNES cartridge images: the 16-byte header and the payload after it.
use vstd::prelude::*;
use vstd::slice::{slice_subrange, slice_to_vec};

verus! {

/// Bytes in one unit of program ROM.
pub const PRG_UNIT: usize = 16 * 1024;
/// Bytes in one unit of character ROM.
pub const CHR_UNIT: usize = 8 * 1024;
/// Bytes of the header.
pub const HEADER_LEN: usize = 16;
/// Bytes of the optional trainer that follows the header.
pub const TRAINER_LEN: usize = 512;

/// Whether `rom` starts with the iNES magic `NES\x1a` and has the size bytes
/// the header is read from.
pub open spec fn header_ok(rom: Seq<u8>) -> bool {
    &&& rom.len() >= 7
    &&& rom[0] == 0x4e
    &&& rom[1] == 0x45
    &&& rom[2] == 0x53
    &&& rom[3] == 0x1a
}

/// Whether flag byte 6 announces a trainer.
pub open spec fn has_trainer(rom: Seq<u8>) -> bool {
    rom[6] & 0x04 != 0
}

/// Where the payload starts: after the header, and after the trainer if there is one.
pub open spec fn payload_offset(rom: Seq<u8>) -> int {
    if has_trainer(rom) { HEADER_LEN + TRAINER_LEN } else { HEADER_LEN as int }
}

/// Bytes of program ROM the header announces.
pub open spec fn prg_size(rom: Seq<u8>) -> int {
    rom[4] * PRG_UNIT
}

/// Bytes of character ROM the header announces.
pub open spec fn chr_size(rom: Seq<u8>) -> int {
    rom[5] * CHR_UNIT
}

/// Whether `rom` is a complete image: a valid header, and a payload that
/// holds at least the program and character ROM the header announces.
pub open spec fn rom_ok(rom: Seq<u8>) -> bool {
    &&& header_ok(rom)
    &&& payload_offset(rom) <= rom.len()
    &&& rom.len() - payload_offset(rom) >= prg_size(rom) + chr_size(rom)
}

/// Why an image cannot be loaded.
#[derive(Clone, Copy, Debug, PartialEq, Eq, Structural)]
pub enum RomError {
    /// The image does not start with a valid header.
    InvalidHeader,
    /// The image is shorter than its header announces.
    TooShort,
}

/// The fields of an iNES header.
#[derive(Debug, Clone, Copy)]
pub struct Header {
    pub prg_len: usize,
    pub chr_len: usize,
    pub trainer: bool,
}

impl Header {
    /// Reads the header at the start of `rom`.
    pub fn new(rom: &[u8]) -> (h: Self)
        requires
            header_ok(rom@),
        ensures
            h.prg_len == prg_size(rom@),
            h.chr_len == chr_size(rom@),
            h.trainer == has_trainer(rom@),
    {
        Self {
            prg_len: rom[4] as usize * 16 * 1024,
            chr_len: rom[5] as usize * 8 * 1024,
            trainer: (rom[6] & 0x04) != 0,
        }
    }

    /// Bytes of program ROM.
    pub fn prg_len(&self) -> (n: usize)
        ensures
            n == self.prg_len,
    {
        self.prg_len
    }

    /// Bytes of character ROM.
    pub fn chr_len(&self) -> (n: usize)
        ensures
            n == self.chr_len,
    {
        self.chr_len
    }
}

/// A cartridge image: its header and the payload after header and trainer.
#[derive(Debug)]
pub struct Rom {
    header: Header,
    payload: Vec<u8>,
}

impl Rom {
    #[verifier::type_invariant]
    spec fn wf(self) -> bool {
        self.payload@.len() >= self.header.prg_len + self.header.chr_len
    }

    /// The header of the image.
    pub closed spec fn spec_header(&self) -> Header {
        self.header
    }

    /// The bytes after the header and the trainer.
    pub closed spec fn spec_payload(&self) -> Seq<u8> {
        self.payload@
    }

    /// Whether `rom` can be loaded, and if not, why: `InvalidHeader` when it
    /// does not start with a valid header, `TooShort` when it is shorter
    /// than its header announces.
    pub fn validate(rom: &[u8]) -> (r: Result<(), RomError>)
        ensures
            r is Ok <==> rom_ok(rom@),
            r == Err::<(), RomError>(RomError::InvalidHeader) <==> !header_ok(rom@),
    {
        if rom.len() < 7 || rom[0] != 0x4e || rom[1] != 0x45 || rom[2] != 0x53 || rom[3] != 0x1a {
            return Err(RomError::InvalidHeader);
        }
        let header = Header::new(rom);
        let offset: usize = if header.trainer { 16 + 512 } else { 16 };
        if offset > rom.len() || rom.len() - offset < header.prg_len + header.chr_len {
            return Err(RomError::TooShort);
        }
        Ok(())
    }

    /// Loads an image: reads its header and keeps the payload that follows
    /// the header (and the trainer, if the header announces one).
    pub fn new(rom: &[u8]) -> (r: Self)
        requires
            rom_ok(rom@),
        ensures
            r.spec_header() == (Header {
                prg_len: prg_size(rom@) as usize,
                chr_len: chr_size(rom@) as usize,
                trainer: has_trainer(rom@),
            }),
            r.spec_payload() == rom@.subrange(payload_offset(rom@), rom@.len() as int),
    {
        let header = Header::new(rom);
        let offset: usize = if header.trainer { 16 + 512 } else { 16 };
        let payload = slice_subrange(rom, offset, rom.len());
        Self { header, payload: slice_to_vec(payload) }
    }

    /// The header of the image.
    pub fn header(&self) -> (h: &Header)
        ensures
            *h == self.spec_header(),
    {
        &self.header
    }

    /// The program ROM: the first `prg_len` bytes of the payload.
    pub fn prg(&self) -> (s: &[u8])
        ensures
            s@ == self.spec_payload().subrange(0, self.spec_header().prg_len as int),
    {
        proof {
            use_type_invariant(self);
        }
        slice_subrange(self.payload.as_slice(), 0, self.header.prg_len)
    }
}

impl Clone for Rom {
    fn clone(&self) -> (r: Self)
        ensures
            r.spec_header() == self.spec_header(),
            r.spec_payload() == self.spec_payload(),
    {
        proof {
            use_type_invariant(self);
        }
        Rom { header: self.header, payload: self.payload.clone() }
    }
}

} // verus!
