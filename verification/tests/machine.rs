//! End-to-end tests of the CHIP-8 machine: the literal scenarios, the
//! quantified properties on concrete values, and every error variant.

use chip8::random::RandomGen;
use chip8::{Chip8, Chip8Error};

fn rom(words: &[u16]) -> Vec<u8> {
    let mut bytes = Vec::new();
    for w in words {
        bytes.push((w >> 8) as u8);
        bytes.push((w & 0xFF) as u8);
    }
    bytes
}

fn machine(words: &[u16]) -> Chip8<RandomGen> {
    Chip8::new(&rom(words), RandomGen { state: 42 }).unwrap()
}

fn run(c: &mut Chip8<RandomGen>, cycles: usize) {
    for _ in 0..cycles {
        c.run_cycle().unwrap();
    }
}

#[test]
fn cls_then_draw_one_sprite_row() {
    // CLS; LD I, 0x000; LD V0, 0x00; DRW V0, V0, 1 — one row of the font
    // digit 0 (0xF0): bits 0..3 of display row 0 lit, no collision.
    let mut c = machine(&[0x00E0, 0xA000, 0x6000, 0xD001]);
    run(&mut c, 4);
    for x in 0..8 {
        assert_eq!(c.display().pixel(x, 0), x < 4, "column {}", x);
    }
    assert_eq!(c.display().pixel(0, 1), false);
    assert_eq!(c.read_reg(0xF), 0);
}

#[test]
fn draw_over_collision() {
    // The same draw twice: the second XOR erases the row and reports the
    // collision in VF.
    let mut c = machine(&[0x00E0, 0xA000, 0x6000, 0xD001, 0xD001]);
    run(&mut c, 5);
    for x in 0..64 {
        assert_eq!(c.display().pixel(x, 0), false, "column {}", x);
    }
    assert_eq!(c.read_reg(0xF), 1);
}

#[test]
fn add_with_carry() {
    // V0 = 0xFF; V1 = 0x02; ADD V0, V1 -> V0 = 0x01, VF = 1.
    let mut c = machine(&[0x60FF, 0x6102, 0x8014]);
    run(&mut c, 3);
    assert_eq!(c.read_reg(0), 0x01);
    assert_eq!(c.read_reg(0xF), 1);
}

#[test]
fn add_without_carry() {
    let mut c = machine(&[0x6010, 0x6120, 0x8014]);
    run(&mut c, 3);
    assert_eq!(c.read_reg(0), 0x30);
    assert_eq!(c.read_reg(0xF), 0);
}

#[test]
fn sub_without_borrow() {
    // V0 = 5; V1 = 3; SUB V0, V1 -> V0 = 2, VF = 1 (strict Vx > Vy).
    let mut c = machine(&[0x6005, 0x6103, 0x8015]);
    run(&mut c, 3);
    assert_eq!(c.read_reg(0), 0x02);
    assert_eq!(c.read_reg(0xF), 1);
}

#[test]
fn sub_with_borrow() {
    // V0 = 3; V1 = 5; SUB V0, V1 -> V0 = 0xFE, VF = 0.
    let mut c = machine(&[0x6003, 0x6105, 0x8015]);
    run(&mut c, 3);
    assert_eq!(c.read_reg(0), 0xFE);
    assert_eq!(c.read_reg(0xF), 0);
}

#[test]
fn sub_equal_values_clears_flag() {
    // VF = 1 only on strict ">": equal operands give VF = 0.
    let mut c = machine(&[0x6007, 0x6107, 0x8015]);
    run(&mut c, 3);
    assert_eq!(c.read_reg(0), 0x00);
    assert_eq!(c.read_reg(0xF), 0);
}

#[test]
fn jump_and_skip() {
    // SE V0, 0x00 with V0 = 0 skips: PC goes 0x200 -> 0x204.
    let mut c = machine(&[0x3000]);
    run(&mut c, 1);
    assert_eq!(c.program_counter(), 0x204);
}

#[test]
fn skip_not_taken_advances_by_two() {
    let mut c = machine(&[0x3001]);
    run(&mut c, 1);
    assert_eq!(c.program_counter(), 0x202);
}

#[test]
fn sequential_opcode_advances_by_two() {
    let mut c = machine(&[0x6077]);
    run(&mut c, 1);
    assert_eq!(c.program_counter(), 0x202);
}

#[test]
fn call_return_round_trip() {
    // CALL 0x300 at 0x200; RET at 0x300. PC: 0x200 -> 0x300 -> 0x202,
    // SP: 0 -> 1 -> 0.
    let mut bytes = rom(&[0x2300]);
    while bytes.len() < 0x100 {
        bytes.push(0);
    }
    bytes.extend_from_slice(&[0x00, 0xEE]);
    let mut c = Chip8::new(&bytes, RandomGen { state: 42 }).unwrap();
    assert_eq!(c.program_counter(), 0x200);
    assert_eq!(c.stack_pointer(), 0);
    c.run_cycle().unwrap();
    assert_eq!(c.program_counter(), 0x300);
    assert_eq!(c.stack_pointer(), 1);
    c.run_cycle().unwrap();
    assert_eq!(c.program_counter(), 0x202);
    assert_eq!(c.stack_pointer(), 0);
}

#[test]
fn wait_for_key() {
    // LD V5, K at 0x200; ticks and cycles make no progress until the key
    // press, which lands in V5; the next cycle runs the opcode at 0x202.
    let mut c = machine(&[0xF50A, 0x6000]);
    c.run_cycle().unwrap();
    assert_eq!(c.program_counter(), 0x202);
    c.timer_tick();
    c.timer_tick();
    c.run_cycle().unwrap();
    c.run_cycle().unwrap();
    assert_eq!(c.program_counter(), 0x202);
    c.handle_key_press(0x7);
    assert_eq!(c.read_reg(5), 0x07);
    c.run_cycle().unwrap();
    assert_eq!(c.program_counter(), 0x204);
}

#[test]
fn tick_decrements_timers_and_nothing_else() {
    // LD V0, 2; LD DT, V0; LD ST, V0 — then ticks count both timers down
    // to zero and leave them there, touching nothing else.
    let mut c = machine(&[0x6002, 0xF015, 0xF018]);
    run(&mut c, 3);
    assert_eq!(c.delay_timer(), 2);
    assert_eq!(c.sound_timer(), 2);
    let pc = c.program_counter();
    c.timer_tick();
    assert_eq!(c.delay_timer(), 1);
    assert_eq!(c.sound_timer(), 1);
    c.timer_tick();
    assert_eq!(c.delay_timer(), 0);
    assert_eq!(c.sound_timer(), 0);
    c.timer_tick();
    assert_eq!(c.delay_timer(), 0);
    assert_eq!(c.sound_timer(), 0);
    assert_eq!(c.program_counter(), pc);
    assert_eq!(c.read_reg(0), 2);
}

#[test]
fn load_delay_timer_into_register() {
    let mut c = machine(&[0x6005, 0xF015, 0xF107]);
    run(&mut c, 3);
    assert_eq!(c.read_reg(1), 5);
}

#[test]
fn store_load_round_trip() {
    // Fill V0..VE with distinct values, store at I = 0x300, clobber, load
    // back: every register restored, memory outside [I, I+15) untouched.
    let mut words = Vec::new();
    for r in 0..15u16 {
        words.push(0x6000 | (r << 8) | (r * 3 + 1));
    }
    words.push(0xA300); // LD I, 0x300
    words.push(0xFE55); // LD [I], VE
    for r in 0..15u16 {
        words.push(0x6000 | (r << 8) | 0xEE);
    }
    words.push(0xFE65); // LD VE, [I]
    let mut c = machine(&words);
    run(&mut c, words.len());
    for r in 0..15u8 {
        assert_eq!(c.read_reg(r), r * 3 + 1, "register {}", r);
    }
    for r in 0..15usize {
        assert_eq!(c.read_memory(0x300 + r), (r as u8) * 3 + 1);
    }
    assert_eq!(c.read_memory(0x300 + 15), 0);
    assert_eq!(c.read_memory(0x2FF), 0);
    assert_eq!(c.i_register(), 0x300);
}

#[test]
fn bcd_representation() {
    // V0 = 234 -> memory[I..I+3] = 2, 3, 4.
    let mut c = machine(&[0x60EA, 0xA300, 0xF033]);
    run(&mut c, 3);
    assert_eq!(c.read_memory(0x300), 2);
    assert_eq!(c.read_memory(0x301), 3);
    assert_eq!(c.read_memory(0x302), 4);
}

#[test]
fn bcd_representation_edges() {
    let mut c = machine(&[0x6000, 0xA300, 0xF033]);
    run(&mut c, 3);
    assert_eq!(c.read_memory(0x300), 0);
    assert_eq!(c.read_memory(0x301), 0);
    assert_eq!(c.read_memory(0x302), 0);
    let mut c = machine(&[0x60FF, 0xA300, 0xF033]);
    run(&mut c, 3);
    assert_eq!(c.read_memory(0x300), 2);
    assert_eq!(c.read_memory(0x301), 5);
    assert_eq!(c.read_memory(0x302), 5);
}

#[test]
fn shift_right_sets_flag_to_low_bit() {
    let mut c = machine(&[0x6005, 0x8006]);
    run(&mut c, 2);
    assert_eq!(c.read_reg(0), 2);
    assert_eq!(c.read_reg(0xF), 1);
}

#[test]
fn shift_left_sets_flag_to_high_bit() {
    let mut c = machine(&[0x6081, 0x800E]);
    run(&mut c, 2);
    assert_eq!(c.read_reg(0), 0x02);
    assert_eq!(c.read_reg(0xF), 1);
}

#[test]
fn or_and_xor_move() {
    let mut c = machine(&[0x60F0, 0x610F, 0x8011]); // OR
    run(&mut c, 3);
    assert_eq!(c.read_reg(0), 0xFF);
    let mut c = machine(&[0x60F3, 0x613C, 0x8012]); // AND
    run(&mut c, 3);
    assert_eq!(c.read_reg(0), 0x30);
    let mut c = machine(&[0x60FF, 0x610F, 0x8013]); // XOR
    run(&mut c, 3);
    assert_eq!(c.read_reg(0), 0xF0);
    let mut c = machine(&[0x6177, 0x8010]); // LD V0, V1
    run(&mut c, 2);
    assert_eq!(c.read_reg(0), 0x77);
}

#[test]
fn reverse_sub() {
    // SUBN V0, V1: V0 = V1 - V0, VF = 1 iff V1 > V0.
    let mut c = machine(&[0x6003, 0x6105, 0x8017]);
    run(&mut c, 3);
    assert_eq!(c.read_reg(0), 0x02);
    assert_eq!(c.read_reg(0xF), 1);
    let mut c = machine(&[0x6005, 0x6103, 0x8017]);
    run(&mut c, 3);
    assert_eq!(c.read_reg(0), 0xFE);
    assert_eq!(c.read_reg(0xF), 0);
}

#[test]
fn add_byte_wraps_without_flag() {
    // ADD V0, kk wraps and leaves VF alone.
    let mut c = machine(&[0x60FF, 0x7002]);
    run(&mut c, 2);
    assert_eq!(c.read_reg(0), 0x01);
    assert_eq!(c.read_reg(0xF), 0);
}

#[test]
fn jump_plus_zero() {
    // JP V0, 0x300 with V0 = 4 lands at 0x304.
    let mut c = machine(&[0x6004, 0xB300]);
    run(&mut c, 2);
    assert_eq!(c.program_counter(), 0x304);
}

#[test]
fn load_sprite_addresses_font() {
    // LD F, V0 with V0 = 0xA points I at the tenth five-byte sprite.
    let mut c = machine(&[0x600A, 0xF029]);
    run(&mut c, 2);
    assert_eq!(c.i_register(), 50);
    assert_eq!(c.read_memory(50), 0xF0);
}

#[test]
fn add_to_i() {
    let mut c = machine(&[0xA300, 0x6005, 0xF01E]);
    run(&mut c, 3);
    assert_eq!(c.i_register(), 0x305);
}

#[test]
fn skip_if_pressed_and_not_pressed() {
    // SKP V0 with key 3 held skips; SKNP V0 with key 3 held does not.
    let mut c = machine(&[0x6003, 0xE09E]);
    c.run_cycle().unwrap();
    c.handle_key_press(3);
    c.run_cycle().unwrap();
    assert_eq!(c.program_counter(), 0x206);
    let mut c = machine(&[0x6003, 0xE0A1]);
    c.run_cycle().unwrap();
    c.handle_key_press(3);
    c.run_cycle().unwrap();
    assert_eq!(c.program_counter(), 0x204);
    c.handle_key_release(3);
    let mut c2 = machine(&[0x6003, 0xE09E]);
    c2.run_cycle().unwrap();
    c2.run_cycle().unwrap();
    assert_eq!(c2.program_counter(), 0x204);
}

#[test]
fn random_masks_drawn_byte() {
    // RND V0, 0x0F stores the drawn byte masked; the deterministic
    // generator says which byte that is.
    let mut g = RandomGen { state: 42 };
    let expected = g.step() & 0x0F;
    let mut c = machine(&[0xC00F]);
    run(&mut c, 1);
    assert_eq!(c.read_reg(0), expected);
    assert_eq!(c.read_reg(0) & 0xF0, 0);
}

#[test]
fn draw_clips_at_right_edge() {
    // A sprite at x = 62 shows only its two leftmost columns; nothing
    // wraps to column 0.
    let mut c = machine(&[0x603E, 0x6100, 0xA000, 0xD011]);
    run(&mut c, 4);
    assert_eq!(c.display().pixel(62, 0), true);
    assert_eq!(c.display().pixel(63, 0), true);
    assert_eq!(c.display().pixel(0, 0), false);
    assert_eq!(c.display().pixel(1, 0), false);
}

#[test]
fn draw_clips_at_bottom_edge() {
    // A five-row sprite at y = 30 shows only its top two rows.
    let mut c = machine(&[0x6000, 0x611E, 0xA000, 0xD015]);
    run(&mut c, 4);
    assert_eq!(c.display().pixel(0, 30), true);
    assert_eq!(c.display().pixel(0, 31), true); // row 1 of digit 0 is 0x90
    assert_eq!(c.display().pixel(1, 31), false);
    assert_eq!(c.display().pixel(3, 31), true);
    assert_eq!(c.display().pixel(0, 0), false);
}

#[test]
fn draw_coordinates_taken_modulo_grid() {
    // x = 64 starts the sprite at column 0.
    let mut c = machine(&[0x6040, 0x6100, 0xA000, 0xD011]);
    run(&mut c, 4);
    assert_eq!(c.display().pixel(0, 0), true);
}

#[test]
fn vf_as_destination_keeps_flag_not_result() {
    // ADD VF, V1 with a carry: the flag write lands last, so VF holds 1.
    let mut c = machine(&[0x6FFF, 0x6102, 0x8F14]);
    run(&mut c, 3);
    assert_eq!(c.read_reg(0xF), 1);
}

#[test]
fn rom_too_large_is_rejected() {
    let bytes = vec![0u8; 3585];
    assert_eq!(
        Chip8::new(&bytes, RandomGen { state: 1 }).err(),
        Some(Chip8Error::RomTooLarge)
    );
    let bytes = vec![0u8; 3584];
    assert!(Chip8::new(&bytes, RandomGen { state: 1 }).is_ok());
}

#[test]
fn unknown_instruction_is_fatal() {
    let mut c = machine(&[0xFFFF]);
    assert_eq!(c.run_cycle(), Err(Chip8Error::UnknownInstruction(0xFFFF)));
    assert_eq!(c.program_counter(), 0x200);
}

#[test]
fn pc_out_of_bounds_is_fatal() {
    let mut c = machine(&[0x1FFF]);
    c.run_cycle().unwrap();
    assert_eq!(c.program_counter(), 0xFFF);
    assert_eq!(c.run_cycle(), Err(Chip8Error::PcOutOfBounds));
}

#[test]
fn stack_underflow_is_fatal() {
    let mut c = machine(&[0x00EE]);
    assert_eq!(c.run_cycle(), Err(Chip8Error::StackUnderflow));
}

#[test]
fn stack_overflow_is_fatal() {
    // CALL 0x200 calls itself; the seventeenth call finds no free slot.
    let mut c = machine(&[0x2200]);
    for _ in 0..16 {
        c.run_cycle().unwrap();
    }
    assert_eq!(c.stack_pointer(), 16);
    assert_eq!(c.run_cycle(), Err(Chip8Error::StackOverflow));
    assert_eq!(c.stack_pointer(), 16);
}

#[test]
fn memory_out_of_bounds_is_fatal() {
    let mut c = machine(&[0xAFFE, 0xF033]);
    run(&mut c, 1);
    assert_eq!(c.run_cycle(), Err(Chip8Error::MemoryOutOfBounds));
    let mut c = machine(&[0xAFFF, 0x6000, 0xD002]);
    run(&mut c, 2);
    assert_eq!(c.run_cycle(), Err(Chip8Error::MemoryOutOfBounds));
    let mut c = machine(&[0xAFF1, 0xFF55]);
    run(&mut c, 1);
    assert_eq!(c.run_cycle(), Err(Chip8Error::MemoryOutOfBounds));
    let mut c = machine(&[0xAFF0, 0xFF55]);
    run(&mut c, 1);
    // 0xFF0 + 16 registers ends exactly at the memory boundary: legal.
    assert_eq!(c.run_cycle(), Ok(()));
}

#[test]
fn key_out_of_range_is_fatal() {
    let mut c = machine(&[0x60FF, 0xE09E]);
    run(&mut c, 1);
    assert_eq!(c.run_cycle(), Err(Chip8Error::KeyOutOfRange));
}

#[test]
fn font_is_loaded_at_address_zero() {
    let c = machine(&[]);
    assert_eq!(c.read_memory(0), 0xF0);
    assert_eq!(c.read_memory(5), 0x20);
    assert_eq!(c.read_memory(79), 0x80);
    assert_eq!(c.read_memory(80), 0);
}

#[test]
fn rom_is_loaded_at_program_offset() {
    let c = machine(&[0x1234]);
    assert_eq!(c.read_memory(0x200), 0x12);
    assert_eq!(c.read_memory(0x201), 0x34);
    assert_eq!(c.read_memory(0x202), 0);
    assert_eq!(c.program_counter(), 0x200);
}
