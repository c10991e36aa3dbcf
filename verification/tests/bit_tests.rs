use gba_core::bit_utils::{BitSetUtils, BitUtils};
use gba_core::isa::barrel_shift;

#[test]
fn set_bit_then_read_back() {
    // setting a bit makes it read as 1, clearing makes it read as 0,
    // independent of the starting word
    let words: [u32; 4] = [0, 0xFFFFFFFF, 0x12345678, 0x80000001];
    let mut wi: usize = 0;
    while wi < words.len() {
        let w: u32 = words[wi];
        let mut pos: usize = 0;
        while pos <= 31 {
            assert_eq!(w.set_bit(pos, true).at_bit(pos), 1);
            assert_eq!(w.set_bit(pos, false).at_bit(pos), 0);
            pos += 1;
        }
        wi += 1;
    }
}

#[test]
fn set_bit_leaves_others() {
    let w: u32 = 0x0F0F0F0F;
    let v: u32 = w.set_bit(4, true);
    assert_eq!(v, 0x0F0F0F1F);
    let u: u32 = w.set_bit(0, false);
    assert_eq!(u, 0x0F0F0F0E);
}

#[test]
fn at_bit_values() {
    let w: u32 = 0x80000001;
    assert_eq!(w.at_bit(0), 1);
    assert_eq!(w.at_bit(1), 0);
    assert_eq!(w.at_bit(31), 1);
}

#[test]
fn get_bits_fields() {
    let w: u32 = 0xE2810020;
    assert_eq!(w.get_bits(28, 31), 0xE);
    assert_eq!(w.get_bits(25, 27), 1);
    assert_eq!(w.get_bits(21, 24), 0x4);
    assert_eq!(w.get_bits(16, 19), 1);
    assert_eq!(w.get_bits(12, 15), 0);
    assert_eq!(w.get_bits(0, 7), 0x20);
    assert_eq!(w.get_bits(0, 31), w);
}

#[test]
fn get_bits_below_width_bound() {
    // an extracted range is strictly below 2 to the power of its width
    let w: u32 = 0xFFFFFFFF;
    assert!(w.get_bits(3, 7) < 32);
    assert!(w.get_bits(0, 3) < 16);
    assert!(w.get_bits(5, 5) < 2);
}

#[test]
fn barrel_shift_all_kinds() {
    // logical left
    assert_eq!(barrel_shift(1, 0, 4, false), (16, false));
    // logical right
    assert_eq!(barrel_shift(0x80000000, 1, 31, false), (1, false));
    // arithmetic right keeps the sign bit
    assert_eq!(barrel_shift(0x80000000, 2, 4, false), (0xF8000000, false));
    assert_eq!(barrel_shift(0x40000000, 2, 4, false), (0x04000000, false));
    // rotate right
    assert_eq!(barrel_shift(0x000000F0, 3, 4, false), (0x0000000F, false));
    // amount zero keeps value and carry-in
    assert_eq!(barrel_shift(0x1234, 0, 0, true), (0x1234, true));
    // shifts past the width drain to zero
    assert_eq!(barrel_shift(0xFFFFFFFF, 0, 40, true), (0, false));
    assert_eq!(barrel_shift(0xFFFFFFFF, 2, 40, true), (0xFFFFFFFF, true));
    // a logical left by 32 carries out the lowest bit
    assert_eq!(barrel_shift(1, 0, 32, false), (0, true));
}
