use gameboy::cartridge::Cartridge;
use gameboy::cpu::CPU;
use gameboy::memory::Memory;
use gameboy::state::{FinalState, InitialState, RegName};
use gameboy::GameBoy;

fn rom_image(ctype: u8, size_code: u8) -> Vec<u8> {
    let banks: usize = 2usize << size_code;
    let mut data = vec![0u8; banks * 0x4000];
    data[0x147] = ctype;
    data[0x148] = size_code;
    data
}

#[test]
fn dma_copies_page_into_oam() {
    let mut gb = GameBoy::new(rom_image(0x00, 0), String::new(), None);
    for i in 0..0x100u16 {
        gb.mem.write(0xc000 + i, (i % 256) as u8);
    }
    gb.mem.write(0xff46, 0xc0);
    for i in 0..0xa0u16 {
        assert_eq!(gb.mem.read(0xfe00 + i), (i % 256) as u8);
    }
    assert_eq!(gb.mem.read(0xff46), 0xc0);
}

#[test]
fn ly_lyc_coincidence_sets_stat() {
    let mut gb = GameBoy::new(rom_image(0x00, 0), String::new(), None);
    gb.mem.write(0xff45, 5);
    gb.mem.write(0xff41, 0b01000000); // coincidence interrupt enabled
    gb.mem.write(0xff44, 5);
    assert_eq!(gb.mem.read(0xff41) & 0b100, 0b100);
    assert_eq!(gb.mem.read(0xff0f) & 0b10, 0b10);
    gb.mem.write(0xff44, 6);
    assert_eq!(gb.mem.read(0xff41) & 0b100, 0);
}

#[test]
fn joypad_select_and_press() {
    let mut gb = GameBoy::new(rom_image(0x00, 0), String::new(), None);
    // Select the button group: bit 5 low in the written value.
    gb.mem.write(0xff00, 0b11011111);
    gb.set_joypad_state(false, false, false, false, true, false, false, false);
    let state = gb.mem.read(0xff00);
    assert_eq!(state & 0b1, 0); // A is active-low
    assert_eq!(state & 0xf0, 0xf0);
    assert_eq!(gb.mem.read(0xff0f) & 0b10000, 0b10000);
}

#[test]
fn cartridge_ram_enable_write_and_save_mark() {
    let mut data = rom_image(0x01, 1);
    data[0x149] = 0x02; // 8 KiB of RAM
    let mut cart = Cartridge::new(data, String::new(), None);
    cart.write(0xa000, 0x55);
    assert_eq!(cart.read(0xa000), 0x00); // disabled: write dropped
    cart.write(0x0000, 0x0a);
    cart.write(0xa000, 0x55);
    assert_eq!(cart.read(0xa000), 0x55);
    assert!(!cart.take_save_request());
    cart.write(0x0000, 0x00); // disable: requests a save
    assert!(cart.take_save_request());
    assert!(!cart.take_save_request());
}

#[test]
fn cartridge_word_access() {
    let mut data = rom_image(0x00, 0);
    data[0x200] = 0x34;
    data[0x201] = 0x12;
    let cart = Cartridge::new(data, String::new(), None);
    assert_eq!(cart.read_16(0x200), 0x1234);
}

#[test]
fn memory_word_roundtrip() {
    let mut mem = Memory::new(None);
    mem.write_16(0xc100, 0xbeef);
    assert_eq!(mem.read_16(0xc100), 0xbeef);
    assert_eq!(mem.read(0xc100), 0xef);
    assert_eq!(mem.read(0xc101), 0xbe);
}

#[test]
fn unknown_opcode_reports_fault() {
    let mut mem = Memory::new(None);
    let mut cpu = CPU::new();
    mem.write(0x0000, 0x00);
    mem.write(0x0001, 0xd3);
    cpu.run(&mut mem).unwrap();
    let fault = cpu.run(&mut mem).unwrap_err();
    assert_eq!(fault.opcode, 0xd3);
    assert_eq!(fault.addr, 0x0001);
}

fn blank_final() -> FinalState {
    FinalState {
        pc: 0,
        sp: 0,
        a: 0,
        b: 0,
        c: 0,
        d: 0,
        e: 0,
        f: 0,
        h: 0,
        l: 0,
        ime: 0,
        ei: 0,
        ram: Vec::new(),
    }
}

/// A single-step vector in the conformance corpus's shape: load the
/// initial state, run for the listed cycles, compare the final state.
#[test]
fn single_step_vector() {
    let initial = InitialState {
        pc: 0xc000,
        sp: 0xdffe,
        a: 0x0f,
        b: 1,
        c: 2,
        d: 3,
        e: 4,
        f: 0x00,
        h: 5,
        l: 6,
        ime: 0,
        ie: 0,
        ram: vec![vec![0xc000, 0x3c]], // INC A
    };
    let mut fin = blank_final();
    fin.pc = 0xc001;
    fin.sp = 0xdffe;
    fin.a = 0x10;
    fin.b = 1;
    fin.c = 2;
    fin.d = 3;
    fin.e = 4;
    fin.f = 0x20; // H set by the half-carry out of bit 3
    fin.h = 5;
    fin.l = 6;
    fin.ime = 0;
    fin.ram = vec![vec![0xc000, 0x3c]];
    let mut cpu = CPU::new();
    let mut mem = Memory::new(None);
    cpu.load_state(&initial);
    mem.load_state(&initial);
    let mut counter: u32 = 0;
    while counter < 1 {
        counter += cpu.run(&mut mem).unwrap() as u32;
    }
    assert!(cpu.compare_state(&fin).is_ok());
    assert!(mem.compare_state(&fin).is_ok());
}

#[test]
fn compare_state_reports_first_mismatch() {
    let mut cpu = CPU::new();
    cpu.a = 7;
    let mut fin = blank_final();
    fin.a = 9;
    let m = cpu.compare_state(&fin).unwrap_err();
    assert_eq!(m.reg, RegName::A);
    assert_eq!(m.expected, 9);
    assert_eq!(m.actual, 7);

    let mut mem = Memory::new(None);
    mem.write(0xc000, 1);
    let mut fin2 = blank_final();
    fin2.ram = vec![vec![0xc000, 2], vec![0xc001, 9]];
    let mm = mem.compare_state(&fin2).unwrap_err();
    assert_eq!(mm.addr, 0xc000);
    assert_eq!(mm.expected, 2);
    assert_eq!(mm.actual, 1);
}

/// A full frame over an all-NOP program: the scheduler returns at the
/// frame's end with LY back at zero and the frame marked ready.
#[test]
fn scheduler_runs_one_frame() {
    let mut gb = GameBoy::new(rom_image(0x00, 0), String::new(), None);
    gb.start();
    let completed = gb.run().unwrap();
    assert!(completed);
    assert!(gb.frame_ready);
    assert_eq!(gb.mem.read(0xff44), 0);
    assert_eq!(gb.frame().len(), 160 * 144 * 4);
}

/// A background tile drawn through the renderer shows the palette
/// color of its pixels.
#[test]
fn render_background_row() {
    let mut gb = GameBoy::new(rom_image(0x00, 0), String::new(), None);
    // LCD on, background on, unsigned tile data at 0x8000.
    gb.mem.write(0xff40, 0b10010001);
    gb.mem.write(0xff47, 0b11100100); // identity palette
    // Tile 1: all pixels color 3.
    for i in 0..16u16 {
        gb.mem.write(0x8010 + i, 0xff);
    }
    // Top-left map entry uses tile 1.
    gb.mem.write(0x9800, 1);
    gb.mem.write(0xff44, 0); // render line 0
    gb.advance_line();
    let screen = gb.frame();
    assert_eq!(screen[0], 0x33);
    assert_eq!(screen[1], 0x2c);
    assert_eq!(screen[2], 0x50);
    // Past the first tile the map holds tile 0: color 0.
    assert_eq!(screen[8 * 4], 0xe2);
}
