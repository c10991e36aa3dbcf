use gba_core::cpu::{CPU, Flag, UnimplementedInstr};

#[test]
fn data_processing() {
    let mut cpu = CPU::default();

    // Add instruction
    cpu.run_instr(0xE2810020).unwrap();
    assert_eq!(cpu.read_register(0), 0x20);

    cpu.run_instr(0xE1A01000).unwrap();
    assert_eq!(cpu.read_register(1), 0x20);

    cpu.run_instr(0xE2414005).unwrap();
    println!("{0:?}", (cpu.read_register(0), cpu.read_register(1), cpu.read_register(4)));
    assert_eq!(cpu.read_register(4), 0x20 - 0x05);
}

#[test]
fn branch() {
    let mut cpu = CPU::default();

    let current_sp: u32 = cpu.read_register(15);
    cpu.run_instr(0xEA000001).unwrap();
    assert_eq!(cpu.read_register(15), current_sp + 12);

    cpu.run_instr(0xEAFFFFFB).unwrap();
    assert_eq!(cpu.read_register(15), current_sp);

    cpu.run_instr(0xEB000001).unwrap();
    assert_eq!(cpu.read_register(14), current_sp + 4)
}

#[test]
fn ram_reads() {
    let mut cpu = CPU::default();

    cpu.write_ram_u8(0x02000000, 0x69);
    cpu.write_ram_u8(0x02000001, 0x48);
    cpu.write_ram_u8(0x0203FFFF, 0x69);

    assert_eq!(cpu.read_ram_u8(0x02000000), 0x69);
    assert_eq!(cpu.read_ram_u8(0x02000001), 0x48);
    assert_eq!(cpu.read_ram_u8(0x0203FFFF), 0x69);

    cpu.write_ram_u8(0x03000000, 0x69);
    cpu.write_ram_u8(0x03000001, 0x48);
    cpu.write_ram_u8(0x03007FFF, 0x69);

    assert_eq!(cpu.read_ram_u8(0x03000000), 0x69);
    assert_eq!(cpu.read_ram_u8(0x03000001), 0x48);
    assert_eq!(cpu.read_ram_u8(0x03007FFF), 0x69);

    cpu.write_ram_u32(0x03000026, 0x69420);
    assert_eq!(cpu.read_ram_u32(0x03000026), 0x69420);
}

#[test]
fn cmp_tests() {
    let mut cpu = CPU::default();

    cpu.write_register(0, 1);
    cpu.write_register(1, 1);

    cpu.run_instr(0xE1500001).unwrap();
    assert_eq!(cpu.read_flag(Flag::Zero), true);

    cpu.write_register(2, 2);
    cpu.run_instr(0xE1510002).unwrap();
    assert_eq!(cpu.read_flag(Flag::Zero), false);
}

#[test]
fn carry_intructions() {
    let mut cpu = CPU::default();

    cpu.set_flag(Flag::Carry, true);
    cpu.write_register(1, 1);
    cpu.write_register(2, 1);

    cpu.run_instr(0xE0A11002).unwrap();
    assert_eq!(cpu.read_register(1), 3);

    cpu.write_register(1, 1);
    cpu.write_register(2, 1);
    cpu.set_flag(Flag::Carry, false);

    cpu.run_instr(0xE0A11002).unwrap();
    println!("{0:?}", (cpu.read_register(1), cpu.read_register(2)));
    assert_eq!(cpu.read_register(1), 2);

    cpu.run_instr(0xE0C11002).unwrap();
    assert_eq!(cpu.read_register(1), 0);

    cpu.write_register(1, 1);
    cpu.write_register(2, 1);
    cpu.set_flag(Flag::Carry, true);
    assert_eq!(cpu.read_register(1), 1);
}

#[test]
fn fibonacci_iteration() {
    let mut cpu = CPU::default();

    // Load 1 into r1
    // Load 1 into r2
    // r1 = 2
    // r2 = 3
    // r1 = 5
    // MOV r1, r5
    cpu.load_rom_bytes(vec![
        0xE3A01001, 0xE3A02001, 0xE0811002, 0xE0822001, 0xE0811002, 0xE1A05001,
    ]);

    let mut i: usize = 0;
    while i < 6 {
        cpu.step().unwrap();
        i += 1;
    }
    println!("{0:?}", (cpu.read_register(1), cpu.read_register(5)));
    let pc: u32 = cpu.read_register(15);
    println!("{0:x}", cpu.read_ram_u32(pc - 4));

    assert_eq!(cpu.read_register(5), 5);
}

#[test]
fn reset_state() {
    let cpu = CPU::default();
    assert_eq!(cpu.read_register(13), 0x03007F00);
    assert_eq!(cpu.read_register(15), 0x08000000);
    assert_eq!(cpu.read_register(0), 0);
    assert_eq!(cpu.read_flag(Flag::Zero), true);
    assert_eq!(cpu.read_flag(Flag::Carry), true);
    assert_eq!(cpu.read_flag(Flag::Negative), false);
    assert_eq!(cpu.read_flag(Flag::Overflow), false);
}

#[test]
fn unimplemented_class_reported() {
    let mut cpu = CPU::default();
    let pc: u32 = cpu.read_register(15);
    // class 0b010 (load/store) lies outside the implemented subset
    let err: UnimplementedInstr = cpu.run_instr(0xE4000000).unwrap_err();
    assert_eq!(err.word, 0xE4000000);
    assert_eq!(err.addr, pc);
    // the processor is left exactly as it was
    assert_eq!(cpu.read_register(15), pc);
}

#[test]
fn unimplemented_opcode_reported() {
    let mut cpu = CPU::default();
    let pc: u32 = cpu.read_register(15);
    // class 0b000 with opcode 0b0000 (AND), not in the implemented subset
    let err: UnimplementedInstr = cpu.run_instr(0xE0011002).unwrap_err();
    assert_eq!(err.word, 0xE0011002);
    assert_eq!(err.addr, pc);
    assert_eq!(cpu.read_register(15), pc);
}

#[test]
fn skipped_instruction_advances_pc() {
    let mut cpu = CPU::default();
    let pc: u32 = cpu.read_register(15);
    // condition NE fails on a freshly reset processor (Zero is set), so the
    // add is skipped and only the program counter moves
    cpu.run_instr(0x12810020).unwrap();
    assert_eq!(cpu.read_register(0), 0);
    assert_eq!(cpu.read_register(15), pc + 4);
}

#[test]
fn adds_sets_carry_and_zero() {
    let mut cpu = CPU::default();
    cpu.write_register(1, 0xFFFFFFFF);
    cpu.write_register(2, 1);
    // ADDS r1, r1, r2
    cpu.run_instr(0xE0911002).unwrap();
    assert_eq!(cpu.read_register(1), 0);
    assert_eq!(cpu.read_flag(Flag::Zero), true);
    assert_eq!(cpu.read_flag(Flag::Carry), true);
    assert_eq!(cpu.read_flag(Flag::Negative), false);
    assert_eq!(cpu.read_flag(Flag::Overflow), false);
}

#[test]
fn cmp_borrow_clears_carry() {
    let mut cpu = CPU::default();
    cpu.write_register(0, 0);
    cpu.write_register(1, 1);
    // CMP r0, r1 with r0 < r1: borrow, so Carry clear and Negative set
    cpu.run_instr(0xE1500001).unwrap();
    assert_eq!(cpu.read_flag(Flag::Carry), false);
    assert_eq!(cpu.read_flag(Flag::Negative), true);
    assert_eq!(cpu.read_flag(Flag::Zero), false);
}

#[test]
fn movs_sets_zero() {
    let mut cpu = CPU::default();
    cpu.set_flag(Flag::Zero, false);
    cpu.write_register(0, 0);
    // MOVS r1, r0 with r0 == 0
    cpu.run_instr(0xE1B01000).unwrap();
    assert_eq!(cpu.read_register(1), 0);
    assert_eq!(cpu.read_flag(Flag::Zero), true);
    assert_eq!(cpu.read_flag(Flag::Negative), false);
}

#[test]
fn mov_with_immediate_rotate() {
    let mut cpu = CPU::default();
    // MOV r1, #0x20 rotated right by 2*1: 0x20 ror 2 == 8
    cpu.run_instr(0xE3A01120).unwrap();
    assert_eq!(cpu.read_register(1), 8);
}

#[test]
fn mov_with_register_shift() {
    let mut cpu = CPU::default();
    cpu.write_register(0, 3);
    // MOV r1, r0 LSL #4
    cpu.run_instr(0xE1A01200).unwrap();
    assert_eq!(cpu.read_register(1), 48);
}

#[test]
fn open_bus_reads_zero() {
    let mut cpu = CPU::default();
    cpu.write_ram_u8(0x01000000, 0x42);
    assert_eq!(cpu.read_ram_u8(0x01000000), 0);
    cpu.write_ram_u32(0x00000000, 0xDEADBEEF);
    assert_eq!(cpu.read_ram_u32(0x00000000), 0);
    // inside the ROM address range but beyond the loaded image
    assert_eq!(cpu.read_ram_u8(0x08000001), 0);
}

#[test]
fn rom_region_is_writable() {
    let mut cpu = CPU::default();
    // a deliberate simplification: the ROM region accepts stores
    cpu.write_ram_u8(0x08000000, 0x7F);
    assert_eq!(cpu.read_ram_u8(0x08000000), 0x7F);
}

#[test]
fn load_rom_raw_bytes() {
    let mut cpu = CPU::default();
    // the little-endian bytes of the word 0xE3A01001
    cpu.load_rom(vec![0x01, 0x10, 0xA0, 0xE3]);
    cpu.step().unwrap();
    // MOV r1, #1
    assert_eq!(cpu.read_register(1), 1);
}

#[test]
fn step_reports_unimplemented_and_keeps_state() {
    let mut cpu = CPU::default();
    // an image whose first word, 0xE4000000, decodes to an unsupported class
    cpu.load_rom(vec![0x00, 0x00, 0x00, 0xE4]);
    let pc: u32 = cpu.read_register(15);
    let err: UnimplementedInstr = cpu.step().unwrap_err();
    assert_eq!(err.word, 0xE4000000);
    assert_eq!(err.addr, pc);
    assert_eq!(cpu.read_register(15), pc);
}
