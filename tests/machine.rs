use chip8::chip8::{Chip8, Chip8Error, Cycle};
use chip8::opcode::Opcode;

fn run(chip8: &mut Chip8, op: Opcode) -> Result<(), Chip8Error> {
    chip8.opcode = op;
    chip8.execute_opcode()
}

fn sprite_machine() -> Chip8 {
    let mut chip8 = Chip8::new();
    let sprite = [0b00011000u8, 0b00011000, 0b11111111, 0b11111111, 0b00011000, 0b00011000];
    for (i, b) in sprite.iter().enumerate() {
        chip8.memory[0x300 + i] = *b;
    }
    chip8.I = 0x300;
    chip8
}

#[test]
#[allow(non_snake_case)]
fn test_DRW() {
    let mut chip8 = sprite_machine();
    chip8.V[0] = 56;
    chip8.V[1] = 26;
    run(&mut chip8, Opcode::DRW(0, 1, 6)).unwrap();
    assert!(chip8.draw_flag);
    assert_eq!(chip8.V[0xF], 0);
    assert_eq!(chip8.screen[26][56..64], [0, 0, 0, 1, 1, 0, 0, 0]);
    assert_eq!(chip8.screen[28][56..64], [1, 1, 1, 1, 1, 1, 1, 1]);
    assert_eq!(chip8.screen[31][56..64], [0, 0, 0, 1, 1, 0, 0, 0]);
    for row in 0..32 {
        for col in 0..8 {
            assert_eq!(chip8.screen[row][col], 0);
        }
    }
    run(&mut chip8, Opcode::DRW(0, 1, 6)).unwrap();
    assert_eq!(chip8.V[0xF], 1);
    for row in 0..32 {
        for col in 0..64 {
            assert_eq!(chip8.screen[row][col], 0);
        }
    }
}

#[test]
fn sprite_wraps_around_both_edges() {
    let mut chip8 = sprite_machine();
    chip8.V[0] = 60;
    chip8.V[1] = 30;
    run(&mut chip8, Opcode::DRW(0, 1, 6)).unwrap();
    // rows 30, 31, 0, 1, 2, 3; columns 60..63 then 0..3
    assert_eq!(chip8.screen[30][60..64], [0, 0, 0, 1]);
    assert_eq!(chip8.screen[30][0..4], [1, 0, 0, 0]);
    assert_eq!(chip8.screen[0][60..64], [1, 1, 1, 1]);
    assert_eq!(chip8.screen[0][0..4], [1, 1, 1, 1]);
    assert_eq!(chip8.screen[3][0..4], [1, 0, 0, 0]);
    assert_eq!(chip8.screen[4][0..4], [0, 0, 0, 0]);
    assert_eq!(chip8.V[0xF], 0);
}

#[test]
fn sprite_draw_collision_only_on_overlap() {
    let mut chip8 = sprite_machine();
    chip8.screen[0][0] = 1;
    chip8.V[0] = 0;
    chip8.V[1] = 0;
    run(&mut chip8, Opcode::DRW(0, 1, 1)).unwrap();
    assert_eq!(chip8.V[0xF], 0);
    chip8.screen[0][3] = 1;
    chip8.V[0xF] = 0;
    run(&mut chip8, Opcode::DRW(0, 1, 1)).unwrap();
    assert_eq!(chip8.V[0xF], 1);
    assert_eq!(chip8.screen[0][0..8], [1, 0, 0, 0, 0, 0, 0, 0]);
}

#[test]
fn sprite_past_memory_end_is_refused() {
    let mut chip8 = Chip8::new();
    chip8.I = 4095;
    assert_eq!(run(&mut chip8, Opcode::DRW(0, 1, 2)), Err(Chip8Error::AddressOverflow));
    assert_eq!(chip8.pc, 0x200);
    assert!(!chip8.draw_flag);
}

#[test]
fn bcd_of_other_values() {
    let mut chip8 = Chip8::new();
    chip8.I = 0x300;
    chip8.V[3] = 0;
    run(&mut chip8, Opcode::LD_B(3)).unwrap();
    assert_eq!(chip8.memory[0x300..0x303], [0, 0, 0]);
    chip8.V[3] = 7;
    run(&mut chip8, Opcode::LD_B(3)).unwrap();
    assert_eq!(chip8.memory[0x300..0x303], [0, 0, 7]);
    chip8.V[3] = 255;
    run(&mut chip8, Opcode::LD_B(3)).unwrap();
    assert_eq!(chip8.memory[0x300..0x303], [2, 5, 5]);
    chip8.I = 4094;
    assert_eq!(run(&mut chip8, Opcode::LD_B(3)), Err(Chip8Error::AddressOverflow));
}

#[test]
fn registers_store_then_load_round_trip() {
    let mut chip8 = Chip8::new();
    let vals = [9u8, 8, 7, 6, 5, 4, 3, 2, 1, 0, 255, 128, 64, 32, 16, 1];
    chip8.V = vals;
    chip8.I = 0x400;
    run(&mut chip8, Opcode::LD_I_V(15)).unwrap();
    chip8.V = [0; 16];
    run(&mut chip8, Opcode::LD_V_I(15)).unwrap();
    assert_eq!(chip8.V, vals);
    assert_eq!(chip8.I, 0x400);
}

#[test]
fn partial_register_transfer() {
    let mut chip8 = Chip8::new();
    chip8.V = [1; 16];
    chip8.I = 0x400;
    run(&mut chip8, Opcode::LD_I_V(2)).unwrap();
    assert_eq!(chip8.memory[0x400..0x404], [1, 1, 1, 0]);
    chip8.memory[0x400] = 9;
    run(&mut chip8, Opcode::LD_V_I(0)).unwrap();
    assert_eq!(chip8.V[0..3], [9, 1, 1]);
    chip8.I = 4090;
    assert_eq!(run(&mut chip8, Opcode::LD_I_V(15)), Err(Chip8Error::AddressOverflow));
    assert_eq!(run(&mut chip8, Opcode::LD_V_I(15)), Err(Chip8Error::AddressOverflow));
}

#[test]
fn stack_limits_are_reported() {
    let mut chip8 = Chip8::new();
    assert_eq!(run(&mut chip8, Opcode::RET), Err(Chip8Error::StackUnderflow));
    assert_eq!(chip8.pc, 0x200);
    for level in 1..16u16 {
        run(&mut chip8, Opcode::CALL(0x300 + 2 * level)).unwrap();
        assert_eq!(chip8.sp as u16, level);
    }
    assert_eq!(run(&mut chip8, Opcode::CALL(0x400)), Err(Chip8Error::StackOverflow));
    assert_eq!(chip8.sp, 15);
    run(&mut chip8, Opcode::RET).unwrap();
    assert_eq!(chip8.pc, 0x300 + 2 * 14 + 2);
    assert_eq!(chip8.sp, 14);
}

#[test]
fn arithmetic_wraps() {
    let mut chip8 = Chip8::new();
    chip8.V[0] = 0x7F;
    chip8.V[1] = 0x80;
    run(&mut chip8, Opcode::SUB(0, 1)).unwrap();
    assert_eq!(chip8.V[0], 255);
    assert_eq!(chip8.V[0xF], 0);
    chip8.V[0] = 0x80;
    chip8.V[1] = 0x7F;
    run(&mut chip8, Opcode::SUBN(0, 1)).unwrap();
    assert_eq!(chip8.V[0], 255);
    assert_eq!(chip8.V[0xF], 0);
    chip8.V[0] = 0xFF;
    run(&mut chip8, Opcode::LD_F(0)).unwrap();
    assert_eq!(chip8.I, 1275);
    chip8.I = 0xFFFF;
    chip8.V[0] = 2;
    run(&mut chip8, Opcode::ADD_I(0)).unwrap();
    assert_eq!(chip8.I, 1);
    run(&mut chip8, Opcode::JP_V(0xFFFF)).unwrap();
    assert_eq!(chip8.pc, 1);
}

#[test]
fn flag_register_as_target_keeps_result() {
    let mut chip8 = Chip8::new();
    chip8.V[0xF] = 200;
    chip8.V[1] = 100;
    run(&mut chip8, Opcode::ADD_V(0xF, 1)).unwrap();
    assert_eq!(chip8.V[0xF], 44);
}

#[test]
fn key_tests_skip() {
    let mut chip8 = Chip8::new();
    chip8.V[2] = 7;
    chip8.set_key(7, true);
    run(&mut chip8, Opcode::SKP(2)).unwrap();
    assert_eq!(chip8.pc, 0x204);
    run(&mut chip8, Opcode::SKNP(2)).unwrap();
    assert_eq!(chip8.pc, 0x206);
    chip8.set_key(7, false);
    run(&mut chip8, Opcode::SKNP(2)).unwrap();
    assert_eq!(chip8.pc, 0x20A);
    chip8.V[2] = 200;
    run(&mut chip8, Opcode::SKP(2)).unwrap();
    assert_eq!(chip8.pc, 0x20C);
}

#[test]
fn fresh_machine_holds_font() {
    let chip8 = Chip8::new();
    assert_eq!(chip8.memory[0..5], [0xF0, 0x90, 0x90, 0x90, 0xF0]);
    assert_eq!(chip8.memory[75..80], [0xF0, 0x80, 0xF0, 0x80, 0x80]);
    assert_eq!(chip8.memory[80], 0);
    assert_eq!(chip8.pc, 0x200);
    assert_eq!(chip8.sp, 0);
    assert_eq!(chip8.opcode, Opcode::UNDEFINED);
}

#[test]
fn load_places_bytes_at_program_start() {
    let mut chip8 = Chip8::new();
    let image = [1u8, 2, 3, 250, 0, 17];
    assert_eq!(chip8.load_game(&image), Ok(6));
    assert_eq!(chip8.memory[0x200..0x206], image);
    assert_eq!(chip8.memory[0x1FF], 0);
    assert_eq!(chip8.memory[0x206], 0);
}

#[test]
fn load_of_largest_image_and_too_large_image() {
    let mut chip8 = Chip8::new();
    let largest = vec![0xABu8; 4096 - 0x200];
    assert_eq!(chip8.load_game(&largest), Ok(4096 - 0x200));
    assert_eq!(chip8.memory[4095], 0xAB);
    let mut other = Chip8::new();
    let too_large = vec![1u8; 4096 - 0x200 + 1];
    assert_eq!(other.load_game(&too_large), Err(Chip8Error::ImageTooLarge));
    assert_eq!(other.memory[0x200], 0);
    assert_eq!(other.load_game(&[]), Ok(0));
}

#[test]
fn tick_fetches_decodes_and_executes() {
    let mut chip8 = Chip8::new();
    chip8.load_game(&[0x60, 0x2A, 0x70, 0x01, 0x00, 0xE0]).unwrap();
    let cycle = chip8.tick().unwrap();
    assert_eq!(cycle, Cycle { draw: false, tone: false, unrecognized: false, waiting: false });
    assert_eq!(chip8.V[0], 0x2A);
    assert_eq!(chip8.pc, 0x202);
    assert_eq!(chip8.opcode, Opcode::LD(0, 0x2A));
    chip8.tick_with(0).unwrap();
    assert_eq!(chip8.V[0], 0x2B);
    let cycle = chip8.tick_with(0).unwrap();
    assert!(cycle.draw);
    let cycle = chip8.tick_with(0).unwrap();
    assert!(!cycle.draw);
    assert!(!cycle.unrecognized);
}

#[test]
fn tick_reports_unrecognized_word_and_continues() {
    let mut chip8 = Chip8::new();
    chip8.load_game(&[0xFF, 0xFF, 0x61, 0x05]).unwrap();
    let cycle = chip8.tick_with(0).unwrap();
    assert!(cycle.unrecognized);
    assert_eq!(chip8.pc, 0x202);
    chip8.tick_with(0).unwrap();
    assert_eq!(chip8.V[1], 5);
}

#[test]
fn tick_past_memory_end_fails() {
    let mut chip8 = Chip8::new();
    chip8.pc = 4095;
    assert_eq!(chip8.tick_with(0), Err(Chip8Error::AddressOverflow));
    assert_eq!(chip8.pc, 4095);
}

#[test]
fn random_operation_uses_given_byte() {
    let mut chip8 = Chip8::new();
    chip8.load_game(&[0xC3, 0x0F]).unwrap();
    chip8.tick_with(0xAB).unwrap();
    assert_eq!(chip8.V[3], 0x0B);
}

#[test]
fn timers_count_down_and_tone_on_last_tick() {
    let mut chip8 = Chip8::new();
    chip8.delay_timer = 1;
    chip8.sound_timer = 2;
    // 0x1200: jump to itself
    chip8.load_game(&[0x12, 0x00]).unwrap();
    let first = chip8.tick_with(0).unwrap();
    assert!(!first.tone);
    assert_eq!(chip8.delay_timer, 0);
    assert_eq!(chip8.sound_timer, 1);
    let second = chip8.tick_with(0).unwrap();
    assert!(second.tone);
    assert_eq!(chip8.sound_timer, 0);
    let third = chip8.tick_with(0).unwrap();
    assert!(!third.tone);
    assert_eq!(chip8.delay_timer, 0);
    assert_eq!(chip8.sound_timer, 0);
}

#[test]
fn key_wait_suspends_until_new_press() {
    let mut chip8 = Chip8::new();
    chip8.delay_timer = 10;
    chip8.set_key(3, true);
    // wait for a key into register 4, then load 1 into register 5
    chip8.load_game(&[0xF4, 0x0A, 0x65, 0x01]).unwrap();
    let cycle = chip8.tick_with(0).unwrap();
    assert!(cycle.waiting);
    assert_eq!(chip8.key_wait, Some(4));
    // key 3 was already down: no new press
    let cycle = chip8.tick_with(0).unwrap();
    assert!(cycle.waiting);
    assert_eq!(chip8.delay_timer, 10);
    // release and press again: that is a new press
    chip8.set_key(3, false);
    assert!(chip8.tick_with(0).unwrap().waiting);
    chip8.set_key(3, true);
    chip8.set_key(9, true);
    let cycle = chip8.tick_with(0).unwrap();
    assert!(!cycle.waiting);
    assert_eq!(chip8.V[4], 3);
    assert_eq!(chip8.key_wait, None);
    assert_eq!(chip8.delay_timer, 9);
    chip8.tick_with(0).unwrap();
    assert_eq!(chip8.V[5], 1);
}
