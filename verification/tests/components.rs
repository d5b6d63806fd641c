//! Component tests: the instruction decoder, the output adaptor, the
//! keypad helpers, and the xorshift generator.

use chip8::instruction::{Instruction, RawInstruction};
use chip8::keypad::{combine_rows, key_value, row_bits};
use chip8::output::OutputData;
use chip8::random::{RandomGen, RandomSource};
use chip8::Chip8;

fn decode(w: u16) -> Option<Instruction> {
    RawInstruction::new(w).to_instruction()
}

#[test]
fn decoder_maps_every_pattern() {
    assert_eq!(decode(0x00E0), Some(Instruction::ClearDisplay));
    assert_eq!(decode(0x00EE), Some(Instruction::Return));
    assert_eq!(decode(0x1234), Some(Instruction::Jump(0x234)));
    assert_eq!(decode(0x2345), Some(Instruction::Call(0x345)));
    assert_eq!(decode(0x3A7F), Some(Instruction::SkipIfEqualsByte(0xA, 0x7F)));
    assert_eq!(decode(0x4B01), Some(Instruction::SkipIfNotEqualsByte(0xB, 0x01)));
    assert_eq!(decode(0x5120), Some(Instruction::SkipIfEqual(1, 2)));
    assert_eq!(decode(0x6C55), Some(Instruction::LoadByte(0xC, 0x55)));
    assert_eq!(decode(0x7D10), Some(Instruction::AddByte(0xD, 0x10)));
    assert_eq!(decode(0x8120), Some(Instruction::Move(1, 2)));
    assert_eq!(decode(0x8341), Some(Instruction::Or(3, 4)));
    assert_eq!(decode(0x8562), Some(Instruction::And(5, 6)));
    assert_eq!(decode(0x8783), Some(Instruction::Xor(7, 8)));
    assert_eq!(decode(0x89A4), Some(Instruction::Add(9, 0xA)));
    assert_eq!(decode(0x8BC5), Some(Instruction::Sub(0xB, 0xC)));
    assert_eq!(decode(0x8D06), Some(Instruction::ShiftRight(0xD)));
    assert_eq!(decode(0x8EF7), Some(Instruction::ReverseSub(0xE, 0xF)));
    assert_eq!(decode(0x801E), Some(Instruction::ShiftLeft(0)));
    assert_eq!(decode(0x9230), Some(Instruction::SkipIfNotEqual(2, 3)));
    assert_eq!(decode(0xA987), Some(Instruction::LoadI(0x987)));
    assert_eq!(decode(0xB654), Some(Instruction::JumpPlusZero(0x654)));
    assert_eq!(decode(0xC3AA), Some(Instruction::Random(3, 0xAA)));
    assert_eq!(decode(0xD125), Some(Instruction::Draw(1, 2, 5)));
    assert_eq!(decode(0xE49E), Some(Instruction::SkipIfPressed(4)));
    assert_eq!(decode(0xE5A1), Some(Instruction::SkipIfNotPressed(5)));
    assert_eq!(decode(0xF607), Some(Instruction::LoadDelayTimer(6)));
    assert_eq!(decode(0xF70A), Some(Instruction::WaitForKeyPress(7)));
    assert_eq!(decode(0xF815), Some(Instruction::SetDelayTimer(8)));
    assert_eq!(decode(0xF918), Some(Instruction::SetSoundTimer(9)));
    assert_eq!(decode(0xFA1E), Some(Instruction::AddToI(0xA)));
    assert_eq!(decode(0xFB29), Some(Instruction::LoadSprite(0xB)));
    assert_eq!(decode(0xFC33), Some(Instruction::BCDRepresentation(0xC)));
    assert_eq!(decode(0xFD55), Some(Instruction::StoreRegisters(0xD)));
    assert_eq!(decode(0xFE65), Some(Instruction::LoadRegisters(0xE)));
}

#[test]
fn decoder_rejects_unknown_words() {
    assert_eq!(decode(0x0000), None);
    assert_eq!(decode(0x00E1), None);
    assert_eq!(decode(0x5121), None);
    assert_eq!(decode(0x8128), None);
    assert_eq!(decode(0x9231), None);
    assert_eq!(decode(0xE400), None);
    assert_eq!(decode(0xF000), None);
    assert_eq!(decode(0xFFFF), None);
}

#[test]
fn raw_instruction_keeps_its_word() {
    assert_eq!(RawInstruction::new(0xABCD).value(), 0xABCD);
}

#[test]
fn output_adaptor_scans_a_dark_buffer() {
    let c = Chip8::new(&[], RandomGen { state: 1 }).unwrap();
    let mut out = OutputData::new(c.display().get_buffer());
    let mut count: u64 = 0;
    while let Some(w) = out.next() {
        assert_eq!(w, 0x0000);
        count += 1;
    }
    // 320x224 live words plus the dark filler run.
    assert_eq!(count, 320 * 224 + 16 * 320 - 7);
    assert_eq!(out.next(), None);
}

#[test]
fn output_adaptor_upsamples_lit_pixels() {
    // One font row drawn at the origin: columns 0..3 lit on buffer row 0.
    let mut c = Chip8::new(
        &[0xA0, 0x00, 0x60, 0x00, 0xD0, 0x01],
        RandomGen { state: 1 },
    )
    .unwrap();
    for _ in 0..3 {
        c.run_cycle().unwrap();
    }
    assert!(c.display().pixel(0, 0));
    let mut out = OutputData::new(c.display().get_buffer());
    let mut words = Vec::new();
    for _ in 0..2300 {
        words.push(out.next().unwrap());
    }
    // Buffer column k maps to panel columns 5k..5k+5.
    assert_eq!(words[0], 0xFFFF);
    assert_eq!(words[4], 0xFFFF);
    assert_eq!(words[19], 0xFFFF);
    assert_eq!(words[20], 0x0000);
    // Buffer row 0 repeats for seven panel rows; buffer row 1 is dark.
    assert_eq!(words[320], 0xFFFF);
    assert_eq!(words[6 * 320], 0xFFFF);
    assert_eq!(words[7 * 320], 0x0000);
}

#[test]
fn row_bits_packs_columns() {
    assert_eq!(row_bits(false, false, false, false), 0);
    assert_eq!(row_bits(true, false, false, true), 0b1001);
    assert_eq!(row_bits(true, true, true, true), 0b1111);
    assert_eq!(row_bits(false, true, false, false), 0b0010);
}

#[test]
fn combine_rows_packs_nibbles() {
    assert_eq!(combine_rows(0, 0, 0, 0), 0);
    assert_eq!(combine_rows(1, 2, 3, 4), 1 + 2 * 16 + 3 * 256 + 4 * 4096);
    assert_eq!(combine_rows(0xF, 0xF, 0xF, 0xF), 0xFFFF);
}

#[test]
fn key_value_maps_digit_and_letter_codes() {
    assert_eq!(key_value(48), Some(0x0));
    assert_eq!(key_value(57), Some(0x9));
    assert_eq!(key_value(97), Some(0xA));
    assert_eq!(key_value(102), Some(0xF));
    assert_eq!(key_value(47), None);
    assert_eq!(key_value(58), None);
    assert_eq!(key_value(96), None);
    assert_eq!(key_value(103), None);
}

#[test]
fn xorshift_generator_is_deterministic() {
    let mut a = RandomGen { state: 7 };
    let mut b = RandomGen { state: 7 };
    for _ in 0..32 {
        assert_eq!(a.next_byte(), b.next_byte());
    }
    assert_eq!(a.state, b.state);
}

#[test]
fn xorshift_generator_known_step() {
    // state 1: 1 ^ (1 << 13) = 0x2001; unchanged by >> 17; ^ (x << 5)
    // gives 0x42021, whose low byte is 0x21.
    let mut g = RandomGen { state: 1 };
    assert_eq!(g.step(), 0x21);
    assert_eq!(g.state, 0x42021);
}
