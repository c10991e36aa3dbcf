//! The CPU core: sixteen general registers, the status word, the saved
//! status bank, and the memory map, together with the fetch-decode-execute
//! cycle over the data-processing and branch instruction classes.
//!
//! Main reference: <https://problemkaputt.de/gbatek.htm#arminstructionsummary>

use vstd::prelude::*;

verus! {

use crate::bit_utils::{bit_of, bits_of, with_bit, BitUtils, BitSetUtils};
use crate::bus::{Bus, VRAM_SIZE};
use crate::isa::{
    flag_n, flag_z, flag_c, flag_v, cpsr_with_nzcv, cpsr_with_nzc, cond_holds, wadd,
    alu_result, alu_carry, overflow_add, overflow_sub, ror_bits, spec_barrel_shift,
    barrel_shift, sext24, le_bytes_of_word, word_of_le_bytes, words_le_bytes,
};

/// Bytes of backing storage shared by on-board working RAM (256 KiB) and
/// on-chip working RAM (32 KiB).
pub const RAM_SIZE: usize = 294912;

/// Register index conventionally holding the stack pointer.
pub const REG_SP: usize = 13;

/// Register index holding return addresses for linked branches.
pub const REG_LR: usize = 14;

/// Register index holding the program counter.
pub const REG_PC: usize = 15;

/// The full architectural state of the core, as mathematical values: the
/// sixteen registers, the status word, the saved status bank, both RAM
/// regions (one backing sequence), the cartridge ROM image, and the video
/// RAM placeholder.
#[verifier::ext_equal]
pub ghost struct CpuView {
    pub regs: Seq<u32>,
    pub cpsr: u32,
    pub spsr: Seq<u32>,
    pub ram: Seq<u8>,
    pub rom: Seq<u8>,
    pub vram: Seq<u32>,
}

impl CpuView {
    /// Every fixed-size component has its architecture-defined size; only
    /// the ROM image length varies.
    pub open spec fn wf(self) -> bool {
        &&& self.regs.len() == 16
        &&& self.spsr.len() == 6
        &&& self.ram.len() == RAM_SIZE
        &&& self.vram.len() == VRAM_SIZE
    }

    /// The state at processor reset: Carry and Zero set and an unprivileged
    /// run mode in the status word, boot values in the stack pointer and
    /// program counter, a one-byte ROM image, and zeroed memory.
    pub open spec fn reset() -> CpuView {
        CpuView {
            regs: Seq::new(16, |i: int| if i == 13 { 0x0300_7f00u32 } else if i == 15 { 0x0800_0000u32 } else { 0u32 }),
            cpsr: 0x6000_001f,
            spsr: Seq::new(6, |i: int| 0u32),
            ram: Seq::new(RAM_SIZE as nat, |i: int| 0u8),
            rom: seq![0u8],
            vram: Seq::new(VRAM_SIZE as nat, |i: int| 0u32),
        }
    }

    /// The byte visible at `addr`: working RAM, on-chip RAM and the loaded
    /// part of the ROM region are backed; everything else is open bus and
    /// reads as zero.
    pub open spec fn read_byte(self, addr: u32) -> u8 {
        if 0x0200_0000 <= addr <= 0x0203_ffff {
            self.ram[addr - 0x0200_0000]
        } else if 0x0300_0000 <= addr <= 0x0300_7fff {
            self.ram[addr - 0x0300_0000 + 262144]
        } else if 0x0800_0000 <= addr <= 0x0dff_ffff && addr - 0x0800_0000 < self.rom.len() {
            self.rom[addr - 0x0800_0000]
        } else {
            0u8
        }
    }

    /// Does a store to `addr` land in backing storage? Writing the ROM
    /// region is deliberately permitted as a bring-up simplification; real
    /// cartridge hardware is read-only.
    pub open spec fn writable(self, addr: u32) -> bool {
        ||| 0x0200_0000 <= addr <= 0x0203_ffff
        ||| 0x0300_0000 <= addr <= 0x0300_7fff
        ||| (0x0800_0000 <= addr <= 0x0dff_ffff && addr - 0x0800_0000 < self.rom.len())
    }

    /// The state after storing one byte: the backing cell is replaced if
    /// `addr` is writable, and the store is discarded otherwise (open bus).
    pub open spec fn write_byte(self, addr: u32, value: u8) -> CpuView {
        if 0x0200_0000 <= addr <= 0x0203_ffff {
            CpuView { ram: self.ram.update(addr - 0x0200_0000, value), ..self }
        } else if 0x0300_0000 <= addr <= 0x0300_7fff {
            CpuView { ram: self.ram.update(addr - 0x0300_0000 + 262144, value), ..self }
        } else if 0x0800_0000 <= addr <= 0x0dff_ffff && addr - 0x0800_0000 < self.rom.len() {
            CpuView { rom: self.rom.update(addr - 0x0800_0000, value), ..self }
        } else {
            self
        }
    }

    /// A 32-bit load is four byte loads at consecutive (wrapping) addresses,
    /// little-endian, each dispatched through the same region lookup.
    pub open spec fn read_word(self, addr: u32) -> u32 {
        word_of_le_bytes(
            self.read_byte(addr),
            self.read_byte(wadd(addr, 1)),
            self.read_byte(wadd(addr, 2)),
            self.read_byte(wadd(addr, 3)),
        )
    }

    /// A 32-bit store is four byte stores at consecutive (wrapping)
    /// addresses, little-endian.
    pub open spec fn write_word(self, addr: u32, value: u32) -> CpuView {
        self.write_byte(addr, le_bytes_of_word(value)[0])
            .write_byte(wadd(addr, 1), le_bytes_of_word(value)[1])
            .write_byte(wadd(addr, 2), le_bytes_of_word(value)[2])
            .write_byte(wadd(addr, 3), le_bytes_of_word(value)[3])
    }

    /// The state with one register replaced.
    pub open spec fn with_reg(self, index: int, value: u32) -> CpuView {
        CpuView { regs: self.regs.update(index, value), ..self }
    }

    /// The state after the generic program-counter advance of one
    /// instruction width.
    pub open spec fn advanced_pc(self) -> CpuView {
        self.with_reg(15, wadd(self.regs[15], 4))
    }

    /// The second ALU operand and the shifter carry-out. Bit 25 selects an
    /// 8-bit immediate rotated right by twice the 4-bit rotate field; with
    /// it clear, the register named in bits 3..0 runs through the barrel
    /// shifter, whose amount is an immediate (bits 11..7) or the low byte
    /// of the register named in bits 11..8, by bit 4.
    pub open spec fn operand2(self, instr: u32) -> (u32, bool) {
        if bit_of(instr, 25) == 1 {
            let imm8: u32 = bits_of(instr, 0, 7);
            let rot: u32 = (bits_of(instr, 8, 11) * 2) as u32;
            if rot == 0 {
                (imm8, flag_c(self.cpsr))
            } else {
                (ror_bits(imm8, rot), bit_of(ror_bits(imm8, rot), 31) == 1)
            }
        } else {
            let base: u32 = self.regs[bits_of(instr, 0, 3) as int];
            let kind: u32 = bits_of(instr, 5, 6);
            let amount: u32 = if bit_of(instr, 4) == 0 {
                bits_of(instr, 7, 11)
            } else {
                self.regs[bits_of(instr, 8, 11) as int] & 0xff
            };
            spec_barrel_shift(base, kind, amount, flag_c(self.cpsr))
        }
    }

    /// The state after a data-processing instruction, or `None` if its
    /// opcode lies outside the implemented subset. Flags update only on
    /// request (bit 20), except for the compare, which always updates them
    /// and never writes a register; a write to register 15 suppresses the
    /// generic program-counter advance.
    pub open spec fn dp_result(self, instr: u32) -> Option<CpuView> {
        let opcode: u32 = bits_of(instr, 21, 24);
        let rd: int = bits_of(instr, 12, 15) as int;
        let s: bool = bit_of(instr, 20) == 1;
        let op2: u32 = self.operand2(instr).0;
        let shifter_carry: bool = self.operand2(instr).1;
        let a: u32 = self.regs[bits_of(instr, 16, 19) as int];
        let cin: u32 = if flag_c(self.cpsr) { 1u32 } else { 0u32 };
        if opcode == 13 {
            // MOV: the operand itself; a flag update takes Negative and
            // Zero from the result and Carry from the shifter.
            let v1 = if s {
                CpuView {
                    cpsr: cpsr_with_nzc(self.cpsr, bit_of(op2, 31) == 1, op2 == 0, shifter_carry),
                    ..self
                }
            } else {
                self
            };
            let v2 = v1.with_reg(rd, op2);
            Some(if rd == 15 { v2 } else { v2.advanced_pc() })
        } else if opcode == 10 {
            // CMP: flags of a - op2, computed as a + !op2 + 1.
            let r: u32 = alu_result(a, !op2, 1);
            let v1 = CpuView {
                cpsr: cpsr_with_nzcv(
                    self.cpsr,
                    bit_of(r, 31) == 1,
                    r == 0,
                    alu_carry(a, !op2, 1),
                    overflow_sub(a, op2, r),
                ),
                ..self
            };
            Some(v1.advanced_pc())
        } else if opcode == 4 || opcode == 5 || opcode == 2 || opcode == 6 {
            // ADD, ADC, SUB, SBC: one 33-bit sum, with the second operand
            // complemented and the carry-in fixed for the subtractive forms.
            let b: u32 = if opcode == 4 || opcode == 5 { op2 } else { !op2 };
            let c: u32 = if opcode == 4 { 0u32 } else if opcode == 2 { 1u32 } else { cin };
            let r: u32 = alu_result(a, b, c);
            let vf: bool = if opcode == 4 || opcode == 5 {
                overflow_add(a, op2, r)
            } else {
                overflow_sub(a, op2, r)
            };
            let v1 = if s {
                CpuView {
                    cpsr: cpsr_with_nzcv(self.cpsr, bit_of(r, 31) == 1, r == 0, alu_carry(a, b, c), vf),
                    ..self
                }
            } else {
                self
            };
            let v2 = v1.with_reg(rd, r);
            Some(if rd == 15 { v2 } else { v2.advanced_pc() })
        } else {
            None
        }
    }

    /// The state after a branch: the program counter moves to its value at
    /// fetch time, plus 8 for the pipeline prefetch convention, plus the
    /// sign-extended 24-bit word offset shifted left by two; a linked
    /// branch first leaves the address of the next instruction in the link
    /// register.
    pub open spec fn branch_result(self, instr: u32) -> CpuView {
        let pc: u32 = self.regs[15];
        let offset: u32 = sext24(bits_of(instr, 0, 23)) << 2u32;
        let target: u32 = wadd(wadd(pc, 8), offset);
        let v1 = if bit_of(instr, 24) == 1 { self.with_reg(14, wadd(pc, 4)) } else { self };
        v1.with_reg(15, target)
    }

    /// One instruction, gated by its condition field: a failed condition
    /// only advances the program counter; class 0 or 1 is data processing,
    /// class 5 a branch, and any other class is unimplemented (`None`).
    pub open spec fn instr_result(self, instr: u32) -> Option<CpuView> {
        if !cond_holds(bits_of(instr, 28, 31), self.cpsr) {
            Some(self.advanced_pc())
        } else {
            let class: u32 = bits_of(instr, 25, 27);
            if class == 0 || class == 1 {
                self.dp_result(instr)
            } else if class == 5 {
                Some(self.branch_result(instr))
            } else {
                None
            }
        }
    }

    /// The instruction word at the program counter: the little-endian word
    /// the memory map yields there.
    pub open spec fn fetched_instr(self) -> u32 {
        self.read_word(self.regs[15])
    }

    /// One full instruction cycle: fetch at the program counter, then
    /// execute as `instr_result` describes.
    pub open spec fn step_result(self) -> Option<CpuView> {
        self.instr_result(self.fetched_instr())
    }
}

/// The CPU used to emulate the console's processor core.
pub struct CPU {
    regs: Vec<u32>,
    cpsr: u32,
    spsr: Vec<u32>,
    bus: Bus,
    // The GamePak / cartridge ROM image
    rom: Vec<u8>,
    // Backing storage for both working-RAM regions
    ram: Vec<u8>,
}

impl View for CPU {
    type V = CpuView;

    closed spec fn view(&self) -> CpuView {
        CpuView {
            regs: self.regs@,
            cpsr: self.cpsr,
            spsr: self.spsr@,
            ram: self.ram@,
            rom: self.rom@,
            vram: self.bus@,
        }
    }
}

/// A status-flag name, for read and write access to single condition flags.
#[derive(Clone, Copy, Debug, PartialEq, Eq, Structural)]
pub enum Flag {
    Negative,
    Zero,
    Carry,
    Overflow,
}

impl Flag {
    /// The bit position of this flag in the status word.
    pub open spec fn bit_pos(self) -> u32 {
        match self {
            Flag::Negative => 31,
            Flag::Zero => 30,
            Flag::Carry => 29,
            Flag::Overflow => 28,
        }
    }

    fn pos(self) -> (r: usize)
        ensures
            r == self.bit_pos(),
    {
        match self {
            Flag::Negative => 31,
            Flag::Zero => 30,
            Flag::Carry => 29,
            Flag::Overflow => 28,
        }
    }
}

/// A decoded word whose class or opcode lies outside the implemented
/// subset, with the program-counter value at which it was met. Execution
/// stops loudly rather than guessing a meaning for the word.
#[derive(Clone, Copy, Debug, PartialEq, Eq, Structural)]
pub struct UnimplementedInstr {
    pub word: u32,
    pub addr: u32,
}

impl CPU {
    /// Validity of the backing storage sizes.
    pub open spec fn wf(&self) -> bool {
        self@.wf()
    }
}

impl Default for CPU {
    /// A freshly reset processor, as `CpuView::reset` describes it.
    fn default() -> (r: Self)
        ensures
            r.wf(),
            r@ == CpuView::reset(),
    {
        let mut regs: Vec<u32> = Vec::new();
        let mut k: usize = 0;
        while k < 16
            invariant
                k <= 16,
                regs@.len() == k,
                forall|i: int| 0 <= i < k ==> regs@[i] == 0u32,
            decreases 16 - k,
        {
            regs.push(0);
            k = k + 1;
        }
        regs[REG_SP] = 0x0300_7f00;
        regs[REG_PC] = 0x0800_0000;

        let mut spsr: Vec<u32> = Vec::new();
        let mut j: usize = 0;
        while j < 6
            invariant
                j <= 6,
                spsr@.len() == j,
                forall|i: int| 0 <= i < j ==> spsr@[i] == 0u32,
            decreases 6 - j,
        {
            spsr.push(0);
            j = j + 1;
        }

        let mut ram: Vec<u8> = Vec::new();
        let mut m: usize = 0;
        while m < RAM_SIZE
            invariant
                m <= RAM_SIZE,
                ram@.len() == m,
                forall|i: int| 0 <= i < m ==> ram@[i] == 0u8,
            decreases RAM_SIZE - m,
        {
            ram.push(0);
            m = m + 1;
        }

        let mut rom: Vec<u8> = Vec::new();
        rom.push(0);

        let cpu = CPU { regs, cpsr: 0x6000_001f, spsr, bus: Bus::default(), rom, ram };
        proof {
            assert(cpu@.regs =~= CpuView::reset().regs);
            assert(cpu@.spsr =~= CpuView::reset().spsr);
            assert(cpu@.ram =~= CpuView::reset().ram);
            assert(cpu@.rom =~= CpuView::reset().rom);
            assert(cpu@.vram =~= CpuView::reset().vram);
            assert(cpu@ =~= CpuView::reset());
        }
        cpu
    }
}

impl CPU {
    /// Read-only access to one general register, for display and tests.
    pub fn read_register(&self, index: usize) -> (r: u32)
        requires
            self.wf(),
            index < 16,
        ensures
            r == self@.regs[index as int],
    {
        self.regs[index]
    }

    /// Replace one general register. Writing index 15 moves the program
    /// counter directly.
    pub fn write_register(&mut self, index: usize, value: u32)
        requires
            old(self).wf(),
            index < 16,
        ensures
            final(self).wf(),
            final(self)@ == old(self)@.with_reg(index as int, value),
    {
        self.regs[index] = value;
        proof {
            assert(self@ =~= old(self)@.with_reg(index as int, value));
        }
    }

    /// Read one condition flag of the status word.
    pub fn read_flag(&self, name: Flag) -> (r: bool)
        requires
            self.wf(),
        ensures
            r == (bit_of(self@.cpsr, name.bit_pos()) == 1),
    {
        let p: usize = name.pos();
        self.cpsr.at_bit(p) == 1
    }

    /// Force one condition flag of the status word to the given value.
    pub fn set_flag(&mut self, name: Flag, value: bool)
        requires
            old(self).wf(),
        ensures
            final(self).wf(),
            final(self)@ == (CpuView { cpsr: with_bit(old(self)@.cpsr, name.bit_pos(), value), ..old(self)@ }),
    {
        let p: usize = name.pos();
        self.cpsr = self.cpsr.set_bit(p, value);
        proof {
            assert(self@ =~= (CpuView { cpsr: with_bit(old(self)@.cpsr, name.bit_pos(), value), ..old(self)@ }));
        }
    }

    /// Replace the ROM image wholesale with raw bytes, as the "load program
    /// image" operation. The byte source is read by the caller; an
    /// unreadable source never reaches this point, so no prior state is
    /// disturbed by such a failure.
    pub fn load_rom(&mut self, image: Vec<u8>)
        requires
            old(self).wf(),
        ensures
            final(self).wf(),
            final(self)@ == (CpuView { rom: image@, ..old(self)@ }),
    {
        self.rom = image;
        proof {
            assert(self@ =~= (CpuView { rom: image@, ..old(self)@ }));
        }
    }

    /// Replace the ROM image with the given words, each stored as four
    /// bytes, least significant first.
    pub fn load_rom_bytes(&mut self, vec: Vec<u32>)
        requires
            old(self).wf(),
        ensures
            final(self).wf(),
            final(self)@ == (CpuView { rom: words_le_bytes(vec@), ..old(self)@ }),
    {
        let mut image: Vec<u8> = Vec::new();
        let mut k: usize = 0;
        while k < vec.len()
            invariant
                k <= vec.len(),
                image@ == words_le_bytes(vec@.take(k as int)),
            decreases vec.len() - k,
        {
            let w: u32 = vec[k];
            image.push((w & 0xff) as u8);
            image.push(((w >> 8) & 0xff) as u8);
            image.push(((w >> 16) & 0xff) as u8);
            image.push(((w >> 24) & 0xff) as u8);
            proof {
                assert(vec@.take(k as int + 1).drop_last() =~= vec@.take(k as int));
                assert(vec@.take(k as int + 1).last() == vec@[k as int]);
                assert(image@ =~= words_le_bytes(vec@.take(k as int))
                    + le_bytes_of_word(vec@[k as int]));
            }
            k = k + 1;
        }
        proof {
            assert(vec@.take(k as int) =~= vec@);
        }
        self.rom = image;
        proof {
            assert(self@ =~= (CpuView { rom: words_le_bytes(vec@), ..old(self)@ }));
        }
    }

    /// The byte visible at `addr`, as `CpuView::read_byte` defines it:
    /// open-bus addresses read as zero.
    pub fn read_ram_u8(&self, addr: u32) -> (r: u8)
        requires
            self.wf(),
        ensures
            r == self@.read_byte(addr),
    {
        if 0x0200_0000 <= addr && addr <= 0x0203_ffff {
            self.ram[(addr - 0x0200_0000) as usize]
        } else if 0x0300_0000 <= addr && addr <= 0x0300_7fff {
            self.ram[(addr - 0x0300_0000 + 262144) as usize]
        } else if 0x0800_0000 <= addr && addr <= 0x0dff_ffff
            && ((addr - 0x0800_0000) as usize) < self.rom.len() {
            self.rom[(addr - 0x0800_0000) as usize]
        } else {
            0
        }
    }

    /// Store one byte, as `CpuView::write_byte` defines it: open-bus stores
    /// are discarded, never an error.
    pub fn write_ram_u8(&mut self, addr: u32, value: u8)
        requires
            old(self).wf(),
        ensures
            final(self).wf(),
            final(self)@ == old(self)@.write_byte(addr, value),
    {
        if 0x0200_0000 <= addr && addr <= 0x0203_ffff {
            self.ram[(addr - 0x0200_0000) as usize] = value;
        } else if 0x0300_0000 <= addr && addr <= 0x0300_7fff {
            self.ram[(addr - 0x0300_0000 + 262144) as usize] = value;
        } else if 0x0800_0000 <= addr && addr <= 0x0dff_ffff
            && ((addr - 0x0800_0000) as usize) < self.rom.len() {
            self.rom[(addr - 0x0800_0000) as usize] = value;
        }
        proof {
            assert(self@ =~= old(self)@.write_byte(addr, value));
        }
    }

    /// Load a 32-bit word as four little-endian byte loads at consecutive
    /// wrapping addresses.
    pub fn read_ram_u32(&self, addr: u32) -> (r: u32)
        requires
            self.wf(),
        ensures
            r == self@.read_word(addr),
    {
        let b0: u8 = self.read_ram_u8(addr);
        let b1: u8 = self.read_ram_u8(addr.wrapping_add(1));
        let b2: u8 = self.read_ram_u8(addr.wrapping_add(2));
        let b3: u8 = self.read_ram_u8(addr.wrapping_add(3));
        (b0 as u32) | ((b1 as u32) << 8) | ((b2 as u32) << 16) | ((b3 as u32) << 24)
    }

    /// Store a 32-bit word as four little-endian byte stores at consecutive
    /// wrapping addresses.
    pub fn write_ram_u32(&mut self, addr: u32, value: u32)
        requires
            old(self).wf(),
        ensures
            final(self).wf(),
            final(self)@ == old(self)@.write_word(addr, value),
    {
        self.write_ram_u8(addr, (value & 0xff) as u8);
        self.write_ram_u8(addr.wrapping_add(1), ((value >> 8) & 0xff) as u8);
        self.write_ram_u8(addr.wrapping_add(2), ((value >> 16) & 0xff) as u8);
        self.write_ram_u8(addr.wrapping_add(3), ((value >> 24) & 0xff) as u8);
    }

    /// Gate an instruction on its 4-bit condition field, following the
    /// condition truth table over the current flags.
    pub fn can_exec(&self, cond: u32) -> (r: bool)
        ensures
            r == cond_holds(cond, self@.cpsr),
    {
        proof {
            crate::isa::lemma_bit_of_binary(self.cpsr, 28);
            crate::isa::lemma_bit_of_binary(self.cpsr, 29);
            crate::isa::lemma_bit_of_binary(self.cpsr, 30);
            crate::isa::lemma_bit_of_binary(self.cpsr, 31);
        }
        match cond {
            0b0000 => self.cpsr.at_bit(30) == 1,
            0b0001 => self.cpsr.at_bit(30) == 0,
            0b0010 => self.cpsr.at_bit(29) == 1,
            0b0011 => self.cpsr.at_bit(29) == 0,
            0b0100 => self.cpsr.at_bit(31) == 1,
            0b0101 => self.cpsr.at_bit(31) == 0,
            0b0110 => self.cpsr.at_bit(28) == 1,
            0b0111 => self.cpsr.at_bit(28) == 0,
            0b1000 => self.cpsr.at_bit(29) == 1 && self.cpsr.at_bit(30) == 0,
            0b1001 => self.cpsr.at_bit(29) == 0 || self.cpsr.at_bit(30) == 1,
            0b1010 => self.cpsr.at_bit(31) == self.cpsr.at_bit(28),
            0b1011 => self.cpsr.at_bit(31) != self.cpsr.at_bit(28),
            0b1100 => {
                self.cpsr.at_bit(30) == 0 && (self.cpsr.at_bit(28) == self.cpsr.at_bit(31))
            },
            0b1101 => {
                self.cpsr.at_bit(30) == 1 && (self.cpsr.at_bit(28) != self.cpsr.at_bit(31))
            },
            0b1110 => true,
            _ => false,
        }
    }

    /// Execute a branch-class word, as `CpuView::branch_result` describes.
    pub fn exec_branch(&mut self, instr: u32)
        requires
            old(self).wf(),
        ensures
            final(self).wf(),
            final(self)@ == old(self)@.branch_result(instr),
    {
        let link: u32 = instr.at_bit(24);
        let imm24: u32 = instr.get_bits(0, 23);

        let sext: u32 = if imm24.at_bit(23) == 1 { imm24 | 0xff00_0000 } else { imm24 };
        let offset: u32 = sext << 2u32;

        let current_pc: u32 = self.regs[REG_PC];

        if link == 1 {
            self.regs[REG_LR] = current_pc.wrapping_add(4);
        }

        self.regs[REG_PC] = current_pc.wrapping_add(8).wrapping_add(offset);
        proof {
            assert(self@ =~= old(self)@.branch_result(instr));
        }
    }

    /// Execute a data-processing word, as `CpuView::dp_result` describes;
    /// an opcode outside the implemented subset is reported, with no state
    /// change.
    #[verifier::rlimit(60)]
    pub fn exec_data_processing(&mut self, instr: u32) -> (r: Result<(), UnimplementedInstr>)
        requires
            old(self).wf(),
        ensures
            final(self).wf(),
            r is Ok <==> old(self)@.dp_result(instr) is Some,
            r is Ok ==> Some(final(self)@) == old(self)@.dp_result(instr),
            r matches Err(e) ==> final(self)@ == old(self)@
                && e == (UnimplementedInstr { word: instr, addr: old(self)@.regs[15] }),
    {
        proof {
            crate::isa::lemma_instr_field_bounds(instr);
        }
        let imm_kind: u32 = instr.at_bit(25);
        let rn: usize = instr.get_bits(16, 19) as usize;
        let rd: usize = instr.get_bits(12, 15) as usize;
        let opcode: u32 = instr.get_bits(21, 24);
        let s: bool = instr.at_bit(20) == 1;

        if !(opcode == 0b0100 || opcode == 0b1101 || opcode == 0b0010 || opcode == 0b0101
            || opcode == 0b0110 || opcode == 0b1010) {
            return Err(UnimplementedInstr { word: instr, addr: self.regs[REG_PC] });
        }

        let carry_in: bool = self.cpsr.at_bit(29) == 1;

        let operand: u32;
        let shifter_carry: bool;
        if imm_kind == 1 {
            // immediate: 8 bits rotated right by twice the rotate field
            let imm8: u32 = instr.get_bits(0, 7);
            let rot: u32 = instr.get_bits(8, 11) * 2;
            if rot == 0 {
                operand = imm8;
                shifter_carry = carry_in;
            } else {
                operand = (imm8 >> rot) | (imm8 << (32 - rot));
                shifter_carry = operand.at_bit(31) == 1;
            }
        } else {
            // register, run through the barrel shifter
            let rm: usize = instr.get_bits(0, 3) as usize;
            let base: u32 = self.regs[rm];
            let shift_kind: u32 = instr.get_bits(5, 6);
            let amount: u32 = if instr.at_bit(4) == 0 {
                instr.get_bits(7, 11)
            } else {
                self.regs[instr.get_bits(8, 11) as usize] & 0xff
            };
            let sh: (u32, bool) = barrel_shift(base, shift_kind, amount, carry_in);
            operand = sh.0;
            shifter_carry = sh.1;
        }

        proof {
            assert(operand == old(self)@.operand2(instr).0);
            assert(shifter_carry == old(self)@.operand2(instr).1);
        }

        let rn_value: u32 = self.regs[rn];

        if opcode == 0b1101 {
            // MOV
            if s {
                self.cpsr = self.cpsr.set_bit(31, operand.at_bit(31) == 1)
                    .set_bit(30, operand == 0)
                    .set_bit(29, shifter_carry);
            }
            self.regs[rd] = operand;
            if rd != REG_PC {
                let pc: u32 = self.regs[REG_PC];
                self.regs[REG_PC] = pc.wrapping_add(4);
            }
            proof {
                assert(old(self)@.dp_result(instr) is Some);
                assert(self@ =~= old(self)@.dp_result(instr)->Some_0);
            }
            return Ok(());
        }

        // ADD, ADC, SUB, SBC, CMP: one 33-bit sum
        let b_in: u32 = if opcode == 0b0100 || opcode == 0b0101 { operand } else { !operand };
        let c_in: u32 = if opcode == 0b0100 {
            0
        } else if opcode == 0b0010 || opcode == 0b1010 {
            1
        } else if carry_in {
            1
        } else {
            0
        };
        let result: u32 = rn_value.wrapping_add(b_in).wrapping_add(c_in);
        let carry_out: bool = (rn_value as u64) + (b_in as u64) + (c_in as u64) > 0xffff_ffff;
        let n_flag: bool = result.at_bit(31) == 1;
        let z_flag: bool = result == 0;
        let v_flag: bool = if opcode == 0b0100 || opcode == 0b0101 {
            ((rn_value ^ result) & (operand ^ result)) >> 31u32 == 1
        } else {
            ((rn_value ^ operand) & (rn_value ^ result)) >> 31u32 == 1
        };
        proof {
            assert(result == alu_result(rn_value, b_in, c_in));
            assert(carry_out == alu_carry(rn_value, b_in, c_in));
        }

        if opcode == 0b1010 {
            // CMP: flags only, never a register write
            self.cpsr = self.cpsr.set_bit(31, n_flag)
                .set_bit(30, z_flag)
                .set_bit(29, carry_out)
                .set_bit(28, v_flag);
            let pc: u32 = self.regs[REG_PC];
            self.regs[REG_PC] = pc.wrapping_add(4);
        } else {
            if s {
                self.cpsr = self.cpsr.set_bit(31, n_flag)
                    .set_bit(30, z_flag)
                    .set_bit(29, carry_out)
                    .set_bit(28, v_flag);
            }
            self.regs[rd] = result;
            if rd != REG_PC {
                let pc: u32 = self.regs[REG_PC];
                self.regs[REG_PC] = pc.wrapping_add(4);
            }
        }
        proof {
            assert(old(self)@.dp_result(instr) is Some);
            assert(self@ =~= old(self)@.dp_result(instr)->Some_0);
        }
        Ok(())
    }

    /// Decode and execute one already-fetched word, as
    /// `CpuView::instr_result` describes: a failed condition only advances
    /// the program counter, and an unsupported class or opcode is reported
    /// with no state change.
    pub fn run_instr(&mut self, instr: u32) -> (r: Result<(), UnimplementedInstr>)
        requires
            old(self).wf(),
        ensures
            final(self).wf(),
            r is Ok <==> old(self)@.instr_result(instr) is Some,
            r is Ok ==> Some(final(self)@) == old(self)@.instr_result(instr),
            r matches Err(e) ==> final(self)@ == old(self)@
                && e == (UnimplementedInstr { word: instr, addr: old(self)@.regs[15] }),
    {
        let cond: u32 = instr.get_bits(28, 31);
        let instr_type: u32 = instr.get_bits(25, 27);
        if !self.can_exec(cond) {
            let pc: u32 = self.regs[REG_PC];
            self.regs[REG_PC] = pc.wrapping_add(4);
            proof {
                assert(self@ =~= old(self)@.advanced_pc());
            }
            return Ok(());
        }

        if instr_type == 0b000 || instr_type == 0b001 {
            self.exec_data_processing(instr)
        } else if instr_type == 0b101 {
            self.exec_branch(instr);
            Ok(())
        } else {
            Err(UnimplementedInstr { word: instr, addr: self.regs[REG_PC] })
        }
    }

    /// One atomic instruction cycle: fetch the little-endian word at the
    /// program counter, then decode and execute it. An unsupported word is
    /// reported to the caller with the processor left exactly as it was.
    pub fn step(&mut self) -> (r: Result<(), UnimplementedInstr>)
        requires
            old(self).wf(),
        ensures
            final(self).wf(),
            r is Ok <==> old(self)@.step_result() is Some,
            r is Ok ==> Some(final(self)@) == old(self)@.step_result(),
            r matches Err(e) ==> final(self)@ == old(self)@
                && e == (UnimplementedInstr {
                    word: old(self)@.fetched_instr(),
                    addr: old(self)@.regs[15],
                }),
    {
        let pc: u32 = self.regs[REG_PC];
        let current_instr: u32 = self.read_ram_u32(pc);
        self.run_instr(current_instr)
    }
}

/// Law: from any program counter value P, the forward branch word
/// `0xEA000001` moves the counter to P+12; from there, the backward branch
/// word `0xEAFFFFFB` returns it to P; and the linked branch word
/// `0xEB000001` leaves P+4 in the link register on its way to P+12. All
/// sums wrap at the 32-bit boundary.
pub proof fn lemma_branch_round_trip(v: CpuView)
    requires
        v.wf(),
    ensures
        v.instr_result(0xea00_0001) == Some(v.with_reg(15, wadd(v.regs[15], 12))),
        v.with_reg(15, wadd(v.regs[15], 12)).instr_result(0xeaff_fffb)
            == Some(v.with_reg(15, wadd(v.regs[15], 12)).with_reg(15, v.regs[15])),
        v.instr_result(0xeb00_0001) matches Some(v2)
            && v2.regs[14] == wadd(v.regs[15], 4)
            && v2.regs[15] == wadd(v.regs[15], 12),
{
    assert(bits_of(0xea00_0001u32, 28, 31) == 14 && bits_of(0xea00_0001u32, 25, 27) == 5
        && bits_of(0xea00_0001u32, 0, 23) == 1 && bit_of(0xea00_0001u32, 24) == 0
        && bit_of(1u32, 23) == 0 && (1u32 << 2u32) == 4) by (bit_vector);
    assert(bits_of(0xeaff_fffbu32, 28, 31) == 14 && bits_of(0xeaff_fffbu32, 25, 27) == 5
        && bits_of(0xeaff_fffbu32, 0, 23) == 0xff_fffb && bit_of(0xeaff_fffbu32, 24) == 0
        && bit_of(0xff_fffbu32, 23) == 1
        && ((0xff_fffbu32 | 0xff00_0000u32) << 2u32) == 0xffff_ffec) by (bit_vector);
    assert(bits_of(0xeb00_0001u32, 28, 31) == 14 && bits_of(0xeb00_0001u32, 25, 27) == 5
        && bits_of(0xeb00_0001u32, 0, 23) == 1 && bit_of(0xeb00_0001u32, 24) == 1) by (bit_vector);
}

/// Law: comparing two equal registers sets the Zero flag, and comparing
/// two unequal ones clears it. The compare word reads registers 0 and 1.
pub proof fn lemma_cmp_zero_flag(v: CpuView)
    requires
        v.wf(),
    ensures
        v.instr_result(0xe150_0001) matches Some(v2)
            && (flag_z(v2.cpsr) <==> v.regs[0] == v.regs[1]),
{
    assert(bits_of(0xe150_0001u32, 28, 31) == 14 && bits_of(0xe150_0001u32, 25, 27) == 0
        && bits_of(0xe150_0001u32, 21, 24) == 10 && bit_of(0xe150_0001u32, 25) == 0
        && bits_of(0xe150_0001u32, 16, 19) == 0 && bits_of(0xe150_0001u32, 0, 3) == 1
        && bit_of(0xe150_0001u32, 4) == 0 && bits_of(0xe150_0001u32, 7, 11) == 0
        && bits_of(0xe150_0001u32, 5, 6) == 0) by (bit_vector);
    let a: u32 = v.regs[0];
    let b: u32 = v.regs[1];
    crate::isa::lemma_cmp_flag_formulas(a, b);
    crate::isa::lemma_nzcv_flags(
        v.cpsr,
        bit_of(alu_result(a, !b, 1), 31) == 1,
        alu_result(a, !b, 1) == 0,
        alu_carry(a, !b, 1),
        overflow_sub(a, b, alu_result(a, !b, 1)),
    );
}

/// Law: an add-with-carry of two operands both equal to 1 yields 3 when
/// Carry is set beforehand and 2 when it is clear. The word adds register
/// 2 and the carry into register 1.
pub proof fn lemma_adc_carry_in(v: CpuView)
    requires
        v.wf(),
        v.regs[1] == 1,
        v.regs[2] == 1,
    ensures
        v.instr_result(0xe0a1_1002) matches Some(v2)
            && v2.regs[1] == (if flag_c(v.cpsr) { 3u32 } else { 2u32 }),
{
    assert(bits_of(0xe0a1_1002u32, 28, 31) == 14 && bits_of(0xe0a1_1002u32, 25, 27) == 0
        && bits_of(0xe0a1_1002u32, 21, 24) == 5 && bit_of(0xe0a1_1002u32, 25) == 0
        && bit_of(0xe0a1_1002u32, 20) == 0 && bits_of(0xe0a1_1002u32, 16, 19) == 1
        && bits_of(0xe0a1_1002u32, 12, 15) == 1 && bits_of(0xe0a1_1002u32, 0, 3) == 2
        && bit_of(0xe0a1_1002u32, 4) == 0 && bits_of(0xe0a1_1002u32, 7, 11) == 0
        && bits_of(0xe0a1_1002u32, 5, 6) == 0) by (bit_vector);
}

/// Law: a byte stored at any writable address reads back unchanged; a
/// store to an open-bus address changes nothing at all; and a load from an
/// open-bus address yields zero.
pub proof fn lemma_byte_round_trip(v: CpuView, addr: u32, value: u8)
    requires
        v.wf(),
    ensures
        v.writable(addr) ==> v.write_byte(addr, value).read_byte(addr) == value,
        !v.writable(addr) ==> v.write_byte(addr, value) == v,
        !v.writable(addr) ==> v.read_byte(addr) == 0,
{
}

/// Law: a word stored inside either RAM region, all four of its bytes
/// landing in the region, reads back unchanged.
pub proof fn lemma_word_round_trip(v: CpuView, addr: u32, value: u32)
    requires
        v.wf(),
        (0x0200_0000 <= addr && addr + 3 <= 0x0203_ffff)
            || (0x0300_0000 <= addr && addr + 3 <= 0x0300_7fff),
    ensures
        v.write_word(addr, value).read_word(addr) == value,
{
    crate::isa::lemma_word_le_bytes_round_trip(value);
    let w = v.write_word(addr, value);
    assert(wadd(addr, 1) == addr + 1 && wadd(addr, 2) == addr + 2 && wadd(addr, 3) == addr + 3);
    assert(w.read_byte(addr) == le_bytes_of_word(value)[0]);
    assert(w.read_byte(wadd(addr, 1)) == le_bytes_of_word(value)[1]);
    assert(w.read_byte(wadd(addr, 2)) == le_bytes_of_word(value)[2]);
    assert(w.read_byte(wadd(addr, 3)) == le_bytes_of_word(value)[3]);
}

} // verus!
