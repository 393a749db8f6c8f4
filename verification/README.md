# nes

A verified core for a 6502 (NES) emulator.

- `src/mmu.rs`: the 4 KiB memory and handles on single bytes.
- `src/cpu.rs`: registers, status flags, the stack in page one, operand
  handles, per-instruction bookkeeping and relative branches.
- `src/ops.rs`: what each of the 56 instructions does, as a specification
  (`op_effect`) and as code proved to meet it.
- `src/exec.rs`: addressing modes, running one table entry, and decoding the
  opcode at the program counter through an instruction table.
- `src/rom.rs`, `src/ppu.rs`: iNES images and the picture unit's registers.
- `src/inst.rs`, `src/parser.rs`, `src/text.rs`: the instruction table and the
  reader that builds it from the instruction reference.
- `app/`: the command-line tool that writes the table as YAML, the serde
  forms of the table types, and the run loop.
