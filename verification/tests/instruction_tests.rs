use gameboy::cartridge::Cartridge;
use gameboy::cpu::CPU;
use gameboy::memory::Memory;
use gameboy::GameBoy;

fn rom_image(ctype: u8, size_code: u8) -> Vec<u8> {
    let banks: usize = 2usize << size_code;
    let mut data = vec![0u8; banks * 0x4000];
    data[0x147] = ctype;
    data[0x148] = size_code;
    data
}

#[test]
fn add_sp_negative_displacement() {
    let mut mem = Memory::new(None);
    let mut cpu = CPU::new();
    cpu.sp = 0xfff8;
    mem.write(0, 0xe8); // ADD SP, s8
    mem.write(1, 0x08);
    let cycles = cpu.run(&mut mem).unwrap();
    assert_eq!(cycles, 4);
    assert_eq!(cpu.sp, 0x0000);
    assert_eq!(cpu.flags.z, 0);
    assert_eq!(cpu.flags.n, 0);
    assert_eq!(cpu.flags.h, 1);
    assert_eq!(cpu.flags.cy, 1);

    cpu.pc = 0x10;
    cpu.sp = 0x000a;
    mem.write(0x10, 0xe8);
    mem.write(0x11, 0xfb); // -5
    cpu.run(&mut mem).unwrap();
    assert_eq!(cpu.sp, 0x0005);
}

#[test]
fn ld_hl_sp_displacement() {
    let mut mem = Memory::new(None);
    let mut cpu = CPU::new();
    cpu.sp = 0xc000;
    mem.write(0, 0xf8); // LD HL, SP+s8
    mem.write(1, 0x10);
    let cycles = cpu.run(&mut mem).unwrap();
    assert_eq!(cycles, 3);
    assert_eq!(cpu.hl.full(), 0xc010);
    assert_eq!(cpu.sp, 0xc000);
}

#[test]
fn halt_wakes_on_pending_interrupt_without_ime() {
    let mut mem = Memory::new(None);
    let mut cpu = CPU::new();
    mem.write(0, 0x76); // HALT
    cpu.run(&mut mem).unwrap();
    assert!(cpu.halt);
    // Halted with nothing pending: no progress.
    let c = cpu.run(&mut mem).unwrap();
    assert_eq!(c, 0);
    assert!(cpu.halt);
    assert_eq!(cpu.pc, 1);
    // An enabled pending interrupt clears HALT even with IME off.
    mem.write(0xff0f, 0b100);
    mem.write(0xffff, 0b100);
    let c2 = cpu.run(&mut mem).unwrap();
    assert!(!cpu.halt);
    assert_eq!(c2, 1); // the NOP at 0x0001 ran
    assert_eq!(cpu.pc, 2);
    assert_eq!(mem.read(0xff0f), 0b100); // not serviced: IME is off
}

#[test]
fn reti_restores_ime_and_returns() {
    let mut mem = Memory::new(None);
    let mut cpu = CPU::new();
    cpu.sp = 0xdffc;
    mem.write_16(0xdffc, 0x1234);
    mem.write(0, 0xd9); // RETI
    let cycles = cpu.run(&mut mem).unwrap();
    assert_eq!(cycles, 4);
    assert!(cpu.ime);
    assert_eq!(cpu.pc, 0x1234);
    assert_eq!(cpu.sp, 0xdffe);
}

#[test]
fn conditional_jump_cycles() {
    let mut mem = Memory::new(None);
    let mut cpu = CPU::new();
    mem.write(0, 0x20); // JR NZ, +2
    mem.write(1, 0x02);
    cpu.flags.z = 1;
    let c_not_taken = cpu.run(&mut mem).unwrap();
    assert_eq!(c_not_taken, 2);
    assert_eq!(cpu.pc, 2);
    cpu.pc = 0;
    cpu.flags.z = 0;
    let c_taken = cpu.run(&mut mem).unwrap();
    assert_eq!(c_taken, 3);
    assert_eq!(cpu.pc, 4);
}

#[test]
fn call_and_ret_flow() {
    let mut mem = Memory::new(None);
    let mut cpu = CPU::new();
    cpu.sp = 0xdffe;
    mem.write(0, 0xcd); // CALL 0x0010
    mem.write(1, 0x10);
    mem.write(2, 0x00);
    mem.write(0x10, 0xc9); // RET
    let c1 = cpu.run(&mut mem).unwrap();
    assert_eq!(c1, 6);
    assert_eq!(cpu.pc, 0x10);
    assert_eq!(cpu.sp, 0xdffc);
    let c2 = cpu.run(&mut mem).unwrap();
    assert_eq!(c2, 4);
    assert_eq!(cpu.pc, 3);
    assert_eq!(cpu.sp, 0xdffe);
}

#[test]
fn cb_swap_and_srl_on_hl() {
    let mut mem = Memory::new(None);
    let mut cpu = CPU::new();
    cpu.hl.set_full(0xc123);
    mem.write(0xc123, 0xa5);
    mem.write(0, 0xcb);
    mem.write(1, 0x36); // SWAP (HL)
    mem.write(2, 0xcb);
    mem.write(3, 0x3e); // SRL (HL)
    let c1 = cpu.run(&mut mem).unwrap();
    assert_eq!(c1, 4);
    assert_eq!(mem.read(0xc123), 0x5a);
    let c2 = cpu.run(&mut mem).unwrap();
    assert_eq!(c2, 4);
    assert_eq!(mem.read(0xc123), 0x2d);
    assert_eq!(cpu.flags.cy, 0);
}

#[test]
fn cb_bit_tests_flags() {
    let mut mem = Memory::new(None);
    let mut cpu = CPU::new();
    cpu.bc.high = 0b0100_0000;
    mem.write(0, 0xcb);
    mem.write(1, 0x70); // BIT 6, B
    mem.write(2, 0xcb);
    mem.write(3, 0x78); // BIT 7, B
    cpu.flags.cy = 1;
    cpu.run(&mut mem).unwrap();
    assert_eq!(cpu.flags.z, 0);
    assert_eq!(cpu.flags.h, 1);
    assert_eq!(cpu.flags.n, 0);
    assert_eq!(cpu.flags.cy, 1);
    cpu.run(&mut mem).unwrap();
    assert_eq!(cpu.flags.z, 1);
}

#[test]
fn mbc3_uses_raw_bank_value() {
    let mut data = rom_image(0x11, 1);
    data[0x0000] = 0x11;
    data[0x4000] = 0x22;
    let mut cart = Cartridge::new(data, String::new(), None);
    cart.write(0x2000, 0x00); // MBC3 does not remap bank 0
    assert_eq!(cart.read(0x4000), 0x11);
    cart.write(0x2000, 0x01);
    assert_eq!(cart.read(0x4000), 0x22);
}

#[test]
fn sbc_borrows_through_carry() {
    let mut mem = Memory::new(None);
    let mut cpu = CPU::new();
    cpu.a = 0x10;
    cpu.flags.cy = 1;
    mem.write(0, 0xde); // SBC A, d8
    mem.write(1, 0x0f);
    cpu.run(&mut mem).unwrap();
    assert_eq!(cpu.a, 0x00);
    assert_eq!(cpu.flags.z, 1);
    assert_eq!(cpu.flags.n, 1);
    assert_eq!(cpu.flags.cy, 0);
}

#[test]
fn adc_folds_carry_into_half_test() {
    let mut mem = Memory::new(None);
    let mut cpu = CPU::new();
    cpu.a = 0x0f;
    cpu.flags.cy = 1;
    mem.write(0, 0xce); // ADC A, d8
    mem.write(1, 0x00);
    cpu.run(&mut mem).unwrap();
    assert_eq!(cpu.a, 0x10);
    assert_eq!(cpu.flags.h, 1);
    assert_eq!(cpu.flags.cy, 0);
}

#[test]
fn sprite_renders_over_background() {
    let mut gb = GameBoy::new(rom_image(0x00, 0), String::new(), None);
    // LCD on, sprites on, background on, unsigned tiles.
    gb.mem.write(0xff40, 0b10010011);
    gb.mem.write(0xff47, 0b11100100);
    gb.mem.write(0xff48, 0b11100100);
    // Tile 4: all pixels color 1.
    for i in 0..8u16 {
        gb.mem.write(0x8040 + 2 * i, 0xff);
    }
    // Sprite 0: top-left corner, tile 4, palette 0.
    gb.mem.write(0xfe00, 16);
    gb.mem.write(0xfe01, 8);
    gb.mem.write(0xfe02, 4);
    gb.mem.write(0xfe03, 0);
    gb.mem.write(0xff44, 0);
    gb.advance_line();
    let screen = gb.frame();
    // Sprite color 1 over the background's color 0.
    assert_eq!(screen[0], 0x94);
    assert_eq!(screen[1], 0xe3);
    assert_eq!(screen[2], 0x44);
    // Beyond the sprite's 8 columns the background shows.
    assert_eq!(screen[8 * 4], 0xe2);
}

#[test]
fn render_window_overlay() {
    let mut gb = GameBoy::new(rom_image(0x00, 0), String::new(), None);
    // LCD on, window on with its map at 0x9c00, background on,
    // unsigned tiles.
    gb.mem.write(0xff40, 0b11110001);
    gb.mem.write(0xff47, 0b11100100); // identity palette
    gb.mem.write(0xff4a, 0); // WY = 0
    gb.mem.write(0xff4b, 11); // window starts at column 4
    // Tile 2: all pixels color 2 (high plane set).
    for i in 0..8u16 {
        gb.mem.write(0x8020 + 2 * i + 1, 0xff);
    }
    gb.mem.write(0x9c00, 2); // window map top-left tile
    gb.mem.write(0xff44, 0);
    gb.advance_line();
    assert_eq!(gb.ppu.window_counter, 1);
    let screen = gb.frame();
    // Left of the window start the background (tile 0, color 0) shows.
    assert_eq!(screen[0], 0xe2);
    assert_eq!(screen[3 * 4], 0xe2);
    // From column 4 on, the window's color-2 tile shows.
    assert_eq!(screen[4 * 4], 0x46);
    assert_eq!(screen[4 * 4 + 1], 0x87);
    assert_eq!(screen[4 * 4 + 2], 0x8f);
}

/// The accumulator-only rotates leave Z untouched; the CB-prefixed
/// register form recomputes it from the result.
#[test]
fn accumulator_rotates_leave_z_untouched() {
    let mut mem = Memory::new(None);
    let mut cpu = CPU::new();
    cpu.a = 0x80;
    cpu.flags.z = 1;
    mem.write(0, 0x07); // RLCA
    cpu.run(&mut mem).unwrap();
    assert_eq!(cpu.a, 0x01);
    assert_eq!(cpu.flags.cy, 1);
    assert_eq!(cpu.flags.z, 1); // untouched

    cpu.a = 0x80;
    mem.write(1, 0xcb); // RLC A: the CB form checks the result
    mem.write(2, 0x07);
    cpu.run(&mut mem).unwrap();
    assert_eq!(cpu.a, 0x01);
    assert_eq!(cpu.flags.z, 0);
}

/// With neither joypad group selected, the whole low nibble reads as
/// ones, pressed buttons notwithstanding.
#[test]
fn joypad_unselected_reads_ones() {
    let mut gb = GameBoy::new(rom_image(0x00, 0), String::new(), None);
    gb.mem.write(0xff00, 0xff); // deselect both groups
    gb.set_joypad_state(true, false, false, false, true, false, false, false);
    assert_eq!(gb.mem.read(0xff00), 0xff);
}

/// With the display disabled, the rendered line is blank-filled across
/// all 160 columns.
#[test]
fn lcd_off_blanks_whole_row() {
    let mut gb = GameBoy::new(rom_image(0x00, 0), String::new(), None);
    gb.mem.write(0xff40, 0); // LCD off
    gb.mem.write(0xff44, 0);
    gb.advance_line();
    let screen = gb.frame();
    assert_eq!(screen[0], 0xe2);
    assert_eq!(screen[150 * 4], 0xe2);
    assert_eq!(screen[159 * 4 + 3], 0xff);
}

/// A guest that halts with interrupts disabled can never finish a
/// frame; the scheduler detects the stall and returns at once.
#[test]
fn scheduler_detects_stalled_guest() {
    let mut rom = rom_image(0x00, 0);
    rom[0x100] = 0x76; // HALT
    let mut gb = GameBoy::new(rom, String::new(), None);
    gb.start();
    let completed = gb.run().unwrap();
    assert!(!completed);
    assert!(!gb.starved);
    assert!(gb.cpu.halt);
    assert!(!gb.frame_ready);
}
