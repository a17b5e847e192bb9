use chip8::cpu::CPU;
use chip8::semantics::{Fault, HEIGHT, PIXEL_ON, WIDTH};

const FUEL: u64 = 10_000;

#[test]
fn test_add() {
    let mut cpu = CPU::new();

    cpu.set_reg(0, 5);
    cpu.set_reg(1, 10);
    cpu.set_reg(2, 10);
    cpu.set_reg(3, 10);

    // three register adds, then a halt word
    cpu.load(&[0x80, 0x14, 0x80, 0x24, 0x80, 0x34]);

    assert_eq!(cpu.run(FUEL), Ok(true));

    assert_eq!(cpu.reg(0), 35);
}

#[test]
fn test_add_twice() {
    let mut cpu = CPU::new();

    cpu.set_reg(0, 5);
    cpu.set_reg(1, 10);

    // main program: call the subroutine twice, then halt;
    // subroutine (at 0x208): add register 1 to register 0 twice, return
    let rom = [
        0x22, 0x08, // call 0x208
        0x22, 0x08, // call 0x208
        0x00, 0x00, // halt
        0x00, 0x00, // padding
        0x80, 0x14, // r0 += r1
        0x80, 0x14, // r0 += r1
        0x00, 0xEE, // return
    ];
    cpu.load(&rom);

    assert_eq!(cpu.run(FUEL), Ok(true));

    // A = (A + B + B), called twice: 5 + 10 + 10 + 10 + 10 == 45
    assert_eq!(cpu.reg(0), 45);
}

#[test]
fn new_machine_has_font_and_cleared_state() {
    let cpu = CPU::new();
    assert_eq!(cpu.mem_at(0), 0xF0);
    assert_eq!(cpu.mem_at(4), 0xF0);
    assert_eq!(cpu.mem_at(5), 0x20);
    assert_eq!(cpu.mem_at(79), 0x80);
    assert_eq!(cpu.mem_at(80), 0);
    assert_eq!(cpu.mem_at(0xFFF), 0);
    assert!(!cpu.halted());
    for x in 0..16 {
        assert_eq!(cpu.reg(x), 0);
    }
    assert_eq!(cpu.disp().len(), WIDTH * HEIGHT);
    assert!(cpu.disp().iter().all(|&px| px == 0));
}

#[test]
fn load_places_image_at_program_start() {
    let mut cpu = CPU::new();
    cpu.load(&[0xAB, 0xCD]);
    assert_eq!(cpu.mem_at(0x1FF), 0);
    assert_eq!(cpu.mem_at(0x200), 0xAB);
    assert_eq!(cpu.mem_at(0x201), 0xCD);
    assert_eq!(cpu.mem_at(0x202), 0);
}

#[test]
fn add_sets_carry_flag() {
    let mut cpu = CPU::new();
    cpu.set_reg(0, 200);
    cpu.set_reg(1, 100);
    cpu.load(&[0x80, 0x14]);
    assert_eq!(cpu.run(FUEL), Ok(true));
    assert_eq!(cpu.reg(0), 44);
    assert_eq!(cpu.reg(15), 1);
}

#[test]
fn add_without_carry_clears_flag() {
    let mut cpu = CPU::new();
    cpu.set_reg(0, 5);
    cpu.set_reg(1, 10);
    cpu.set_reg(15, 1);
    cpu.load(&[0x80, 0x14]);
    assert_eq!(cpu.run(FUEL), Ok(true));
    assert_eq!(cpu.reg(0), 15);
    assert_eq!(cpu.reg(15), 0);
}

#[test]
fn sub_sets_no_borrow_flag() {
    let mut cpu = CPU::new();
    cpu.set_reg(0, 10);
    cpu.set_reg(1, 3);
    cpu.load(&[0x80, 0x15]);
    assert_eq!(cpu.run(FUEL), Ok(true));
    assert_eq!(cpu.reg(0), 7);
    assert_eq!(cpu.reg(15), 1);
}

#[test]
fn sub_with_borrow_wraps_and_clears_flag() {
    let mut cpu = CPU::new();
    cpu.set_reg(0, 3);
    cpu.set_reg(1, 10);
    cpu.load(&[0x80, 0x15]);
    assert_eq!(cpu.run(FUEL), Ok(true));
    assert_eq!(cpu.reg(0), 249);
    assert_eq!(cpu.reg(15), 0);
}

#[test]
fn reverse_sub_mirrors_flag_semantics() {
    let mut cpu = CPU::new();
    cpu.set_reg(0, 3);
    cpu.set_reg(1, 10);
    cpu.load(&[0x80, 0x17]);
    assert_eq!(cpu.run(FUEL), Ok(true));
    assert_eq!(cpu.reg(0), 7);
    assert_eq!(cpu.reg(15), 1);

    let mut cpu = CPU::new();
    cpu.set_reg(0, 10);
    cpu.set_reg(1, 3);
    cpu.load(&[0x80, 0x17]);
    assert_eq!(cpu.run(FUEL), Ok(true));
    assert_eq!(cpu.reg(0), 249);
    assert_eq!(cpu.reg(15), 0);
}

#[test]
fn bitwise_and_assign_ops() {
    let mut cpu = CPU::new();
    cpu.set_reg(0, 0b1100);
    cpu.set_reg(1, 0b1010);
    cpu.set_reg(2, 0b1100);
    cpu.set_reg(3, 0b1100);
    cpu.set_reg(4, 0b1010);
    let rom = [
        0x80, 0x11, // r0 |= r1
        0x82, 0x12, // r2 &= r1
        0x83, 0x13, // r3 ^= r1
        0x85, 0x40, // r5 := r4
        0x66, 0x2A, // r6 := 0x2A
        0x76, 0x01, // r6 += 1
    ];
    cpu.load(&rom);
    assert_eq!(cpu.run(FUEL), Ok(true));
    assert_eq!(cpu.reg(0), 0b1110);
    assert_eq!(cpu.reg(2), 0b1000);
    assert_eq!(cpu.reg(3), 0b0110);
    assert_eq!(cpu.reg(5), 0b1010);
    assert_eq!(cpu.reg(6), 0x2B);
}

#[test]
fn immediate_add_wraps_without_flag() {
    let mut cpu = CPU::new();
    cpu.set_reg(0, 250);
    cpu.load(&[0x70, 0x0A]);
    assert_eq!(cpu.run(FUEL), Ok(true));
    assert_eq!(cpu.reg(0), 4);
    // unlike the carry add, the immediate add leaves the flag alone
    assert_eq!(cpu.reg(15), 0);
}

#[test]
fn shift_right_reports_low_bit() {
    let mut cpu = CPU::new();
    cpu.set_reg(0, 5);
    cpu.load(&[0x80, 0x06]);
    assert_eq!(cpu.run(FUEL), Ok(true));
    assert_eq!(cpu.reg(0), 2);
    assert_eq!(cpu.reg(15), 1);
}

#[test]
fn shift_left_reports_raw_high_bit() {
    let mut cpu = CPU::new();
    cpu.set_reg(0, 0x81);
    cpu.load(&[0x80, 0x0E]);
    assert_eq!(cpu.run(FUEL), Ok(true));
    assert_eq!(cpu.reg(0), 2);
    // the flag keeps the raw masked bit, not a normalized 0/1
    assert_eq!(cpu.reg(15), 0x80);
}

#[test]
fn skip_instructions_follow_comparisons() {
    let mut cpu = CPU::new();
    cpu.set_reg(0, 7);
    let rom = [
        0x30, 0x07, // skip next if r0 == 7 (taken)
        0x61, 0x01, // r1 := 1 (skipped)
        0x40, 0x07, // skip next if r0 != 7 (not taken)
        0x62, 0x01, // r2 := 1
        0x63, 0x07, // r3 := 7
        0x50, 0x30, // skip next if r0 == r3 (taken)
        0x64, 0x01, // r4 := 1 (skipped)
        0x90, 0x30, // skip next if r0 != r3 (not taken)
        0x65, 0x01, // r5 := 1
    ];
    cpu.load(&rom);
    assert_eq!(cpu.run(FUEL), Ok(true));
    assert_eq!(cpu.reg(1), 0);
    assert_eq!(cpu.reg(2), 1);
    assert_eq!(cpu.reg(4), 0);
    assert_eq!(cpu.reg(5), 1);
}

#[test]
fn offset_jump_uses_register_zero() {
    let mut cpu = CPU::new();
    let rom = [
        0x60, 0x02, // r0 := 2
        0xB2, 0x04, // jump to r0 + 0x204 = 0x206
        0x61, 0x01, // r1 := 1 (jumped over)
        0x62, 0x02, // r2 := 2
    ];
    cpu.load(&rom);
    assert_eq!(cpu.run(FUEL), Ok(true));
    assert_eq!(cpu.reg(1), 0);
    assert_eq!(cpu.reg(2), 2);
}

#[test]
fn test_bcd_digits() {
    let mut cpu = CPU::new();
    cpu.set_reg(0, 234);
    let rom = [
        0xA3, 0x00, // i := 0x300
        0xF0, 0x33, // store decimal digits of r0
    ];
    cpu.load(&rom);
    assert_eq!(cpu.run(FUEL), Ok(true));
    assert_eq!(cpu.mem_at(0x300), 2);
    assert_eq!(cpu.mem_at(0x301), 3);
    assert_eq!(cpu.mem_at(0x302), 4);
}

#[test]
fn dump_then_load_restores_registers() {
    let mut cpu = CPU::new();
    cpu.set_reg(0, 7);
    cpu.set_reg(1, 8);
    cpu.set_reg(2, 9);
    let rom = [
        0xA3, 0x00, // i := 0x300
        0xF2, 0x55, // dump r0..r2 to memory
        0x60, 0x00, // r0 := 0
        0x61, 0x00, // r1 := 0
        0x62, 0x00, // r2 := 0
        0xF2, 0x65, // load r0..r2 back
    ];
    cpu.load(&rom);
    assert_eq!(cpu.run(FUEL), Ok(true));
    assert_eq!(cpu.mem_at(0x300), 7);
    assert_eq!(cpu.mem_at(0x301), 8);
    assert_eq!(cpu.mem_at(0x302), 9);
    assert_eq!(cpu.reg(0), 7);
    assert_eq!(cpu.reg(1), 8);
    assert_eq!(cpu.reg(2), 9);
}

#[test]
fn index_add_accumulates() {
    let mut cpu = CPU::new();
    cpu.set_reg(0, 5);
    let rom = [
        0xA3, 0x00, // i := 0x300
        0xF0, 0x1E, // i += r0 -> 0x305
        0xF0, 0x33, // store digits of r0 at i
    ];
    cpu.load(&rom);
    assert_eq!(cpu.run(FUEL), Ok(true));
    assert_eq!(cpu.mem_at(0x305), 0);
    assert_eq!(cpu.mem_at(0x306), 0);
    assert_eq!(cpu.mem_at(0x307), 5);
}

#[test]
fn font_address_instruction_points_at_glyph() {
    let mut cpu = CPU::new();
    let rom = [
        0x60, 0x01, // r0 := 1
        0xF0, 0x29, // i := glyph address of digit 1 (5)
        0x61, 0x00, // r1 := 0
        0xD1, 0x11, // draw one row of the glyph at (0, 0)
    ];
    cpu.load(&rom);
    assert_eq!(cpu.run(FUEL), Ok(true));
    // top row of the glyph for 1 is 0x20: only column 2 is lit
    assert_eq!(cpu.disp()[0], 0);
    assert_eq!(cpu.disp()[1], 0);
    assert_eq!(cpu.disp()[2], PIXEL_ON);
    assert_eq!(cpu.disp()[3], 0);
}

#[test]
fn test_draw_and_collision() {
    let mut cpu = CPU::new();
    let rom = [
        0x00, 0xE0, // clear the display
        0xA0, 0x00, // i := 0 (font glyph 0 starts with 0xF0)
        0xD0, 0x11, // draw 1 row at (r0, r0) = (0, 0)
        0xD0, 0x11, // draw the same sprite again
    ];
    cpu.load(&rom);

    assert_eq!(cpu.step(), Ok(false));
    assert_eq!(cpu.step(), Ok(false));
    assert_eq!(cpu.step(), Ok(true));
    for x in 0..4 {
        assert_eq!(cpu.disp()[x], PIXEL_ON);
    }
    for x in 4..8 {
        assert_eq!(cpu.disp()[x], 0);
    }
    assert_eq!(cpu.reg(15), 0);

    assert_eq!(cpu.step(), Ok(true));
    for x in 0..8 {
        assert_eq!(cpu.disp()[x], 0);
    }
    assert_eq!(cpu.reg(15), 1);
}

#[test]
fn draw_clips_at_the_grid_edge() {
    let mut cpu = CPU::new();
    cpu.set_reg(0, 62);
    cpu.set_reg(1, 30);
    let rom = [
        0xA0, 0x00, // i := 0 (glyph rows 0xF0, 0x90)
        0xD0, 0x12, // draw 2 rows at (62, 30)
        0xD0, 0x12, // draw the same sprite again
    ];
    cpu.load(&rom);
    assert_eq!(cpu.step(), Ok(false));
    assert_eq!(cpu.step(), Ok(true));
    // row 30 of 0xF0: columns 62 and 63 lit, 64 and 65 dropped
    assert_eq!(cpu.disp()[30 * WIDTH + 62], PIXEL_ON);
    assert_eq!(cpu.disp()[30 * WIDTH + 63], PIXEL_ON);
    // row 31 of 0x90: column 62 lit, column 63 unlit, column 65 dropped
    assert_eq!(cpu.disp()[31 * WIDTH + 62], PIXEL_ON);
    assert_eq!(cpu.disp()[31 * WIDTH + 63], 0);
    // nothing spilled to the opposite edges
    assert_eq!(cpu.disp()[30 * WIDTH], 0);
    assert_eq!(cpu.disp()[31 * WIDTH], 0);
    assert_eq!(cpu.disp()[0], 0);
    assert_eq!(cpu.reg(15), 0);

    // the surviving in-range cells still take part in collision detection
    assert_eq!(cpu.step(), Ok(true));
    assert_eq!(cpu.disp()[30 * WIDTH + 62], 0);
    assert_eq!(cpu.disp()[30 * WIDTH + 63], 0);
    assert_eq!(cpu.disp()[31 * WIDTH + 62], 0);
    assert_eq!(cpu.reg(15), 1);
}

#[test]
fn sixteen_calls_fit_and_the_seventeenth_overflows() {
    let mut cpu = CPU::new();
    let mut rom: Vec<u8> = Vec::new();
    for k in 0..17u16 {
        let target = 0x202 + 2 * k;
        rom.push(0x20 | (target >> 8) as u8);
        rom.push((target & 0xFF) as u8);
    }
    cpu.load(&rom);
    for _ in 0..16 {
        assert_eq!(cpu.step(), Ok(false));
    }
    assert_eq!(cpu.step(), Err(Fault::StackOverflow));
    // the faulting step left the machine untouched: it faults again
    assert_eq!(cpu.step(), Err(Fault::StackOverflow));
}

#[test]
fn return_with_empty_stack_underflows() {
    let mut cpu = CPU::new();
    cpu.load(&[0x00, 0xEE]);
    assert_eq!(cpu.step(), Err(Fault::StackUnderflow));
}

#[test]
fn unknown_opcode_is_an_illegal_instruction() {
    let mut cpu = CPU::new();
    cpu.load(&[0xFF, 0xFF]);
    assert_eq!(cpu.step(), Err(Fault::IllegalInstruction(0xFFFF)));

    let mut cpu = CPU::new();
    cpu.load(&[0x5A, 0xB1]);
    assert_eq!(cpu.step(), Err(Fault::IllegalInstruction(0x5AB1)));
}

#[test]
fn out_of_range_memory_access_faults() {
    let mut cpu = CPU::new();
    cpu.load(&[0xAF, 0xFF, 0xF0, 0x33]);
    assert_eq!(cpu.step(), Ok(false));
    assert_eq!(cpu.step(), Err(Fault::MemoryFault));

    let mut cpu = CPU::new();
    cpu.load(&[0x1F, 0xFF]);
    assert_eq!(cpu.step(), Ok(false));
    assert_eq!(cpu.step(), Err(Fault::MemoryFault));
}

#[test]
fn masked_random_value_respects_the_mask() {
    let mut cpu = CPU::new();
    cpu.set_reg(0, 77);
    cpu.load(&[0xC0, 0x00]);
    assert_eq!(cpu.run(FUEL), Ok(true));
    // whatever byte was drawn, the zero mask clears every bit
    assert_eq!(cpu.reg(0), 0);

    let mut cpu = CPU::new();
    cpu.load(&[0xC0, 0x0F]);
    assert_eq!(cpu.run(FUEL), Ok(true));
    assert!(cpu.reg(0) < 16);
}

#[test]
fn delay_timer_counts_down_to_zero() {
    let mut cpu = CPU::new();
    let rom = [
        0x60, 0x02, // r0 := 2
        0xF0, 0x15, // delay := r0
        0xF0, 0x07, // r0 := delay
        0xF0, 0x07, // r0 := delay
    ];
    cpu.load(&rom);
    assert_eq!(cpu.step(), Ok(false));
    assert_eq!(cpu.step(), Ok(false));
    cpu.delay_timer_tick();
    assert_eq!(cpu.step(), Ok(false));
    assert_eq!(cpu.reg(0), 1);
    cpu.delay_timer_tick();
    cpu.delay_timer_tick();
    cpu.delay_timer_tick();
    assert_eq!(cpu.step(), Ok(false));
    assert_eq!(cpu.reg(0), 0);
}

#[test]
fn sound_timer_reports_one_shot_tone() {
    let mut cpu = CPU::new();
    let rom = [
        0x60, 0x02, // r0 := 2
        0xF0, 0x18, // sound := r0
    ];
    cpu.load(&rom);
    assert_eq!(cpu.run(FUEL), Ok(true));
    assert!(!cpu.sound_timer_tick());
    assert!(cpu.sound_timer_tick());
    assert!(!cpu.sound_timer_tick());
    assert!(!cpu.sound_timer_tick());
}

#[test]
fn key_wait_blocks_until_the_awaited_key() {
    let mut cpu = CPU::new();
    let rom = [
        0x60, 0x05, // r0 := 5
        0xF0, 0x0A, // wait for the key numbered by r0
        0x61, 0x07, // r1 := 7
    ];
    cpu.load(&rom);
    assert_eq!(cpu.step(), Ok(false));
    assert_eq!(cpu.step(), Ok(false));
    // blocked: repeated steps fetch nothing
    assert_eq!(cpu.step(), Ok(false));
    assert_eq!(cpu.step(), Ok(false));
    assert_eq!(cpu.reg(1), 0);
    // a different key leaves it blocked
    cpu.key_state(4, true);
    assert_eq!(cpu.step(), Ok(false));
    assert_eq!(cpu.reg(1), 0);
    // the awaited key unblocks; the next step resumes fetching
    cpu.key_state(5, true);
    assert_eq!(cpu.step(), Ok(false));
    assert_eq!(cpu.reg(1), 0);
    assert_eq!(cpu.step(), Ok(false));
    assert_eq!(cpu.reg(1), 7);
}

#[test]
fn key_skip_instructions_read_the_keypad() {
    let mut cpu = CPU::new();
    cpu.set_reg(0, 3);
    cpu.key_state(3, true);
    let rom = [
        0xE0, 0x9E, // skip next if key r0 pressed (taken)
        0x61, 0x01, // r1 := 1 (skipped)
        0xE0, 0xA1, // skip next if key r0 not pressed (not taken)
        0x62, 0x01, // r2 := 1
    ];
    cpu.load(&rom);
    assert_eq!(cpu.run(FUEL), Ok(true));
    assert_eq!(cpu.reg(1), 0);
    assert_eq!(cpu.reg(2), 1);

    let mut cpu = CPU::new();
    cpu.set_reg(0, 3);
    cpu.load(&rom);
    assert_eq!(cpu.run(FUEL), Ok(true));
    // unpressed: the is-pressed skip is not taken, the not-pressed skip is
    assert_eq!(cpu.reg(1), 1);
    assert_eq!(cpu.reg(2), 0);
}

#[test]
fn clear_unlights_the_whole_grid() {
    let mut cpu = CPU::new();
    let rom = [
        0xA0, 0x00, // i := 0
        0xD0, 0x11, // draw 1 row at (0, 0)
        0x00, 0xE0, // clear
    ];
    cpu.load(&rom);
    assert_eq!(cpu.step(), Ok(false));
    assert_eq!(cpu.step(), Ok(true));
    assert_eq!(cpu.disp()[0], PIXEL_ON);
    assert_eq!(cpu.step(), Ok(false));
    assert!(cpu.disp().iter().all(|&px| px == 0));
}

#[test]
fn snapshot_and_restore_duplicate_the_whole_state() {
    let mut cpu = CPU::new();
    cpu.set_reg(0, 5);
    cpu.set_reg(1, 10);
    cpu.load(&[0x80, 0x14, 0x80, 0x14]);
    let snapshot = cpu.clone();
    assert_eq!(cpu.run(FUEL), Ok(true));
    assert_eq!(cpu.reg(0), 25);
    assert!(cpu.halted());
    cpu = snapshot;
    assert_eq!(cpu.reg(0), 5);
    assert!(!cpu.halted());
    assert_eq!(cpu.run(FUEL), Ok(true));
    assert_eq!(cpu.reg(0), 25);
}

#[test]
fn fuel_runs_out_before_an_endless_program_halts() {
    let mut cpu = CPU::new();
    // jump to itself forever
    cpu.load(&[0x12, 0x00]);
    assert_eq!(cpu.run(100), Ok(false));
    assert!(!cpu.halted());
}

#[test]
fn full_register_dump_fits_exactly_at_the_top_of_memory() {
    let mut cpu = CPU::new();
    for x in 0..16u8 {
        cpu.set_reg(x, x + 100);
    }
    // dump r0..r15 at 0xFF0..0xFFF: the last byte of memory, and no further
    cpu.load(&[0xAF, 0xF0, 0xFF, 0x55]);
    assert_eq!(cpu.step(), Ok(false));
    assert_eq!(cpu.step(), Ok(false));
    for x in 0..16u8 {
        assert_eq!(cpu.mem_at(0xFF0 + x as u16), x + 100);
    }

    // one address higher, the same dump would run past memory
    let mut cpu = CPU::new();
    cpu.load(&[0xAF, 0xF1, 0xFF, 0x55]);
    assert_eq!(cpu.step(), Ok(false));
    assert_eq!(cpu.step(), Err(Fault::MemoryFault));
}

#[test]
fn zero_height_draw_reads_no_memory_and_cannot_fault() {
    let mut cpu = CPU::new();
    cpu.set_reg(15, 1);
    // i points past the last memory cell, but a zero-row sprite reads nothing
    cpu.load(&[0xAF, 0xFF, 0xD0, 0x00]);
    assert_eq!(cpu.step(), Ok(false));
    assert_eq!(cpu.step(), Ok(true));
    assert!(cpu.disp().iter().all(|&px| px == 0));
    // the draw still reset the collision flag
    assert_eq!(cpu.reg(15), 0);
}
