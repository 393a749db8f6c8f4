//! Core of a 6502 (NES) emulator: memory, registers, the instruction set,
//! cartridge images, and the instruction-table tooling.

pub mod cpu;
pub mod exec;
pub mod inst;
pub mod laws;
pub mod mmu;
pub mod ops;
pub mod parser;
pub mod ppu;
pub mod rom;
pub mod text;

pub use crate::cpu::{reljump, Context, Imm, Imp, Reg, RegRef, B, C, D, I, N, V, Z};
pub use crate::exec::{can_execute, execute};
pub use crate::inst::{load_by_name, Addr, Inst};
pub use crate::mmu::{Mmu, Ref, MEM_SIZE};
pub use crate::ops::{Op, Operand};
pub use crate::ppu::Ppu;
pub use crate::rom::{Header, Rom, RomError};
